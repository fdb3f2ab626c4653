//! The questions that are put to jj, as argument lists.
use vstd::prelude::*;

use crate::bytes;
use crate::config::RepoConfig;
use crate::paths::FilePath;
use crate::text;
use crate::text::{concat3, no_words, push_word, to_chars};

verus! {

// ---------------------------------------------------------------------------
// Revset strings
// ---------------------------------------------------------------------------

/// The character as it stands inside a double-quoted revset string.
pub open spec fn escaped_char(c: char) -> Seq<char> {
    if c == '\\' {
        seq!['\\', '\\']
    } else if c == '"' {
        seq!['\\', '"']
    } else {
        seq![c]
    }
}

/// The text as it stands inside a double-quoted revset string.
pub open spec fn escaped(s: Seq<char>) -> Seq<char>
    decreases s.len(),
{
    if s.len() == 0 {
        Seq::empty()
    } else {
        escaped(s.drop_last()) + escaped_char(s.last())
    }
}

/// Escapes a bookmark name for a double-quoted revset string.
pub fn escape_revset_string(s: &str) -> (r: String)
    ensures
        r@ == escaped(s@),
{
    let v = to_chars(s);
    let mut r: String = String::new();
    let mut i: usize = 0;
    assert(v@.take(0) =~= Seq::empty());
    while i < v.len()
        invariant
            i <= v.len(),
            r@ == escaped(v@.take(i as int)),
        decreases v.len() - i,
    {
        let c: char = v[i];
        let ghost before = r@;
        assert(v@.take(i + 1).drop_last() =~= v@.take(i as int));
        if c == '\\' || c == '"' {
            r.push('\\');
        }
        r.push(c);
        assert(r@ =~= before + escaped_char(c));
        i += 1;
    }
    assert(v@.take(v@.len() as int) =~= v@);
    r
}

/// The text that a double-quoted revset string with this content denotes: a
/// backslash makes the next character stand for itself.
pub open spec fn unescaped(s: Seq<char>) -> Seq<char>
    decreases s.len(),
{
    if s.len() == 0 {
        Seq::empty()
    } else if s[0] == '\\' && s.len() >= 2 {
        seq![s[1]] + unescaped(s.skip(2))
    } else {
        seq![s[0]] + unescaped(s.drop_first())
    }
}

/// Where a double-quoted revset string whose content starts at the beginning
/// of `s` is closed.
pub open spec fn closing_quote(s: Seq<char>) -> int
    decreases s.len(),
{
    if s.len() == 0 || s[0] == '"' {
        0
    } else if s[0] == '\\' && s.len() >= 2 {
        2 + closing_quote(s.skip(2))
    } else {
        1 + closing_quote(s.drop_first())
    }
}

proof fn escaped_front(s: Seq<char>)
    requires
        s.len() > 0,
    ensures
        escaped(s) == escaped_char(s[0]) + escaped(s.drop_first()),
    decreases s.len(),
{
    if s.len() == 1 {
        assert(s.drop_last() =~= Seq::empty());
        assert(s.drop_first() =~= Seq::empty());
        assert(escaped(s) =~= escaped_char(s[0]) + escaped(s.drop_first()));
    } else {
        escaped_front(s.drop_last());
        assert(s.drop_last().drop_first() =~= s.drop_first().drop_last());
        assert(escaped(s) =~= escaped_char(s[0]) + escaped(s.drop_first()));
    }
}

/// An escaped name in double quotes denotes the name.
pub proof fn escaped_denotes_itself(s: Seq<char>)
    ensures
        unescaped(escaped(s)) == s,
    decreases s.len(),
{
    if s.len() > 0 {
        escaped_front(s);
        let rest = s.drop_first();
        escaped_denotes_itself(rest);
        let e = escaped(s);
        if s[0] == '\\' || s[0] == '"' {
            assert(e.skip(2) =~= escaped(rest));
        } else {
            assert(e.drop_first() =~= escaped(rest));
        }
        assert(seq![s[0]] + rest =~= s);
    } else {
        assert(unescaped(escaped(s)) =~= s);
    }
}

/// An escaped name does not break out of its quotes: whatever follows, the
/// string is closed by the quote behind it.
pub proof fn escaped_does_not_break_out(s: Seq<char>, rest: Seq<char>)
    ensures
        closing_quote(escaped(s).push('"') + rest) == escaped(s).len(),
    decreases s.len(),
{
    let whole = escaped(s).push('"') + rest;
    if s.len() > 0 {
        escaped_front(s);
        let tail = s.drop_first();
        escaped_does_not_break_out(tail, rest);
        if s[0] == '\\' || s[0] == '"' {
            assert(whole.skip(2) =~= escaped(tail).push('"') + rest);
        } else {
            assert(whole.drop_first() =~= escaped(tail).push('"') + rest);
        }
    }
}

// ---------------------------------------------------------------------------
// Questions to jj
// ---------------------------------------------------------------------------

/// Asks for the root of the repository at `path`.
pub open spec fn root_query(path: Seq<u8>) -> Seq<Seq<char>> {
    seq!["-R"@, bytes::text_of(path), "root"@]
}

/// Asks for the workspaces of the repository, with their commits.
pub open spec fn workspace_list_query(repo: Seq<u8>) -> Seq<Seq<char>> {
    seq![
        "-R"@,
        bytes::text_of(repo),
        "--ignore-working-copy"@,
        "workspace"@,
        "list"@,
        "-T"@,
        "name ++ \"\\t\" ++ target.commit_id() ++ \"\\n\""@,
    ]
}

/// Asks for the bookmarks nearest to the commit.
pub open spec fn bookmark_query(repo: Seq<u8>, commit: Seq<char>) -> Seq<Seq<char>> {
    seq![
        "-R"@,
        bytes::text_of(repo),
        "--ignore-working-copy"@,
        "log"@,
        "--no-graph"@,
        "--limit"@,
        "1"@,
        "-r"@,
        "heads(::"@ + commit + " & bookmarks())"@,
        "-T"@,
        "bookmarks.map(|b| b.name()).join(\",\") ++ \"\\n\""@,
    ]
}

/// Asks for one line per commit of the revset.
pub open spec fn commits_query(repo: Seq<u8>, revset: Seq<char>) -> Seq<Seq<char>> {
    seq![
        "-R"@,
        bytes::text_of(repo),
        "--ignore-working-copy"@,
        "log"@,
        "--no-graph"@,
        "-r"@,
        revset,
        "-T"@,
        "\"x\\n\""@,
    ]
}

/// The remote copies of the bookmark.
pub open spec fn remote_revset(bookmark: Seq<char>) -> Seq<char> {
    "remote_bookmarks(exact:\""@ + escaped(bookmark) + "\")"@
}

/// The bookmark's commits that no remote copy of it has.
pub open spec fn ahead_revset(bookmark: Seq<char>) -> Seq<char> {
    "remote_bookmarks(exact:\""@ + escaped(bookmark) + "\")..bookmarks(exact:\""@ + escaped(bookmark)
        + "\")"@
}

/// The trunk's commits that the bookmark does not have.
pub open spec fn behind_revset(bookmark: Seq<char>) -> Seq<char> {
    "\""@ + escaped(bookmark) + "\"..trunk()"@
}

/// Asks for the changed files of the workspace.
pub open spec fn dirty_query(workspace: Seq<u8>) -> Seq<Seq<char>> {
    seq!["-R"@, bytes::text_of(workspace), "diff"@, "-r"@, "@"@, "--summary"@, "--no-pager"@]
}

/// Appends a path, as text, to a list of words.
pub fn push_path(words: &mut Vec<String>, path: &FilePath)
    ensures
        text::strings_view(final(words)@) == text::strings_view(old(words)@).push(
            bytes::text_of(path@),
        ),
{
    let shown = path.to_text();
    push_word(words, shown.as_str());
}

/// The arguments that ask for the root of the repository at `path`.
pub fn root_args(path: &FilePath) -> (r: Vec<String>)
    ensures
        text::strings_view(r@) == root_query(path@),
{
    let mut r = no_words();
    push_word(&mut r, "-R");
    push_path(&mut r, path);
    push_word(&mut r, "root");
    assert(text::strings_view(r@) =~= root_query(path@));
    r
}

/// The arguments that ask for the workspaces of the repository.
pub fn workspace_list_args(config: &RepoConfig) -> (r: Vec<String>)
    ensures
        text::strings_view(r@) == workspace_list_query(config@.path),
{
    let mut r = no_words();
    push_word(&mut r, "-R");
    push_path(&mut r, &config.path);
    push_word(&mut r, "--ignore-working-copy");
    push_word(&mut r, "workspace");
    push_word(&mut r, "list");
    push_word(&mut r, "-T");
    push_word(&mut r, "name ++ \"\\t\" ++ target.commit_id() ++ \"\\n\"");
    assert(text::strings_view(r@) =~= workspace_list_query(config@.path));
    r
}

/// The arguments that ask for the bookmarks nearest to the commit.
pub fn bookmark_args(repo: &FilePath, commit: &str) -> (r: Vec<String>)
    ensures
        text::strings_view(r@) == bookmark_query(repo@, commit@),
{
    let revset = concat3("heads(::", commit, " & bookmarks())");
    let mut r = no_words();
    push_word(&mut r, "-R");
    push_path(&mut r, repo);
    push_word(&mut r, "--ignore-working-copy");
    push_word(&mut r, "log");
    push_word(&mut r, "--no-graph");
    push_word(&mut r, "--limit");
    push_word(&mut r, "1");
    push_word(&mut r, "-r");
    push_word(&mut r, revset.as_str());
    push_word(&mut r, "-T");
    push_word(&mut r, "bookmarks.map(|b| b.name()).join(\",\") ++ \"\\n\"");
    assert(text::strings_view(r@) =~= bookmark_query(repo@, commit@));
    r
}

fn commits_args(repo: &FilePath, revset: &str) -> (r: Vec<String>)
    ensures
        text::strings_view(r@) == commits_query(repo@, revset@),
{
    let mut r = no_words();
    push_word(&mut r, "-R");
    push_path(&mut r, repo);
    push_word(&mut r, "--ignore-working-copy");
    push_word(&mut r, "log");
    push_word(&mut r, "--no-graph");
    push_word(&mut r, "-r");
    push_word(&mut r, revset);
    push_word(&mut r, "-T");
    push_word(&mut r, "\"x\\n\"");
    assert(text::strings_view(r@) =~= commits_query(repo@, revset@));
    r
}

/// The arguments that ask for the remote copies of the bookmark.
pub fn remote_args(repo: &FilePath, bookmark: &str) -> (r: Vec<String>)
    ensures
        text::strings_view(r@) == commits_query(repo@, remote_revset(bookmark@)),
{
    let name = escape_revset_string(bookmark);
    let revset = concat3("remote_bookmarks(exact:\"", name.as_str(), "\")");
    commits_args(repo, revset.as_str())
}

/// The arguments that ask for the bookmark's commits that are not pushed.
pub fn ahead_args(repo: &FilePath, bookmark: &str) -> (r: Vec<String>)
    ensures
        text::strings_view(r@) == commits_query(repo@, ahead_revset(bookmark@)),
{
    let name = escape_revset_string(bookmark);
    let mut revset = concat3(
        "remote_bookmarks(exact:\"",
        name.as_str(),
        "\")..bookmarks(exact:\"",
    );
    revset.append(name.as_str());
    revset.append("\")");
    commits_args(repo, revset.as_str())
}

/// The arguments that ask for the trunk's commits that the bookmark lacks.
pub fn behind_args(repo: &FilePath, bookmark: &str) -> (r: Vec<String>)
    ensures
        text::strings_view(r@) == commits_query(repo@, behind_revset(bookmark@)),
{
    let name = escape_revset_string(bookmark);
    let revset = concat3("\"", name.as_str(), "\"..trunk()");
    commits_args(repo, revset.as_str())
}

/// The arguments that ask for the changed files of the workspace.
pub fn dirty_args(workspace: &FilePath) -> (r: Vec<String>)
    ensures
        text::strings_view(r@) == dirty_query(workspace@),
{
    let mut r = no_words();
    push_word(&mut r, "-R");
    push_path(&mut r, workspace);
    push_word(&mut r, "diff");
    push_word(&mut r, "-r");
    push_word(&mut r, "@");
    push_word(&mut r, "--summary");
    push_word(&mut r, "--no-pager");
    assert(text::strings_view(r@) =~= dirty_query(workspace@));
    r
}

// ---------------------------------------------------------------------------
// Laws
// ---------------------------------------------------------------------------

/// Whether the revset is the name of a bookmark in double quotes, followed by
/// `rest`: what stands between the first quote and the one that closes it
/// denotes the bookmark.
pub open spec fn names_bookmark(revset: Seq<char>, bookmark: Seq<char>, rest: Seq<char>) -> bool {
    &&& revset.len() > 0
    &&& revset[0] == '"'
    &&& {
        let behind = revset.skip(1);
        let end = closing_quote(behind);
        &&& 0 <= end < behind.len()
        &&& unescaped(behind.take(end)) == bookmark
        &&& behind.skip(end + 1) == rest
    }
}

proof fn quoted_names_bookmark(bookmark: Seq<char>, rest: Seq<char>)
    ensures
        names_bookmark(seq!['"'] + escaped(bookmark).push('"') + rest, bookmark, rest),
{
    let e = escaped(bookmark);
    let revset = seq!['"'] + e.push('"') + rest;
    let behind = e.push('"') + rest;
    assert(revset.skip(1) =~= behind);
    escaped_does_not_break_out(bookmark, rest);
    escaped_denotes_itself(bookmark);
    assert(behind.take(e.len() as int) =~= e);
    assert(behind.skip(e.len() as int + 1) =~= rest);
}

/// Whether the revset is the function applied to the bookmark of exactly that
/// name, followed by `rest`.
pub open spec fn is_bookmark_call(
    revset: Seq<char>,
    function: Seq<char>,
    bookmark: Seq<char>,
    rest: Seq<char>,
) -> bool {
    let opening = function + seq!['(', 'e', 'x', 'a', 'c', 't', ':'];
    &&& opening.is_prefix_of(revset)
    &&& names_bookmark(revset.skip(opening.len() as int), bookmark, seq![')'] + rest)
}

/// The name of the function for bookmarks of this repository.
pub open spec fn local_bookmarks() -> Seq<char> {
    seq!['b', 'o', 'o', 'k', 'm', 'a', 'r', 'k', 's']
}

/// The name of the function for bookmarks of remotes.
pub open spec fn remote_bookmarks() -> Seq<char> {
    seq!['r', 'e', 'm', 'o', 't', 'e', '_'] + local_bookmarks()
}

/// What follows the start of a range that ends with `end`.
pub open spec fn up_to(end: Seq<char>) -> Seq<char> {
    seq!['.', '.'] + end
}

/// The commits that a bookmark is behind are those of the trunk that the
/// bookmark does not have: in `x..y`, which stands for what is reachable from y
/// and not from x, the bookmark stands first and the trunk last.
pub proof fn behind_is_what_the_trunk_has_and_the_bookmark_lacks(bookmark: Seq<char>)
    ensures
        names_bookmark(
            behind_revset(bookmark),
            bookmark,
            up_to(seq!['t', 'r', 'u', 'n', 'k', '(', ')']),
        ),
{
    reveal_strlit("\"");
    reveal_strlit("\"..trunk()");
    let rest = up_to(seq!['t', 'r', 'u', 'n', 'k', '(', ')']);
    assert(behind_revset(bookmark) =~= seq!['"'] + escaped(bookmark).push('"') + rest);
    quoted_names_bookmark(bookmark, rest);
}

/// Whether a bookmark was pushed is asked of the remotes' bookmarks of exactly
/// its name.
pub proof fn remote_copies_have_the_name(bookmark: Seq<char>)
    ensures
        is_bookmark_call(remote_revset(bookmark), remote_bookmarks(), bookmark, Seq::empty()),
{
    reveal_strlit("remote_bookmarks(exact:\"");
    reveal_strlit("\")");
    let opening = remote_bookmarks() + seq!['(', 'e', 'x', 'a', 'c', 't', ':'];
    let rest = seq![')'] + Seq::<char>::empty();
    let inner = seq!['"'] + escaped(bookmark).push('"') + rest;
    assert(remote_revset(bookmark) =~= opening + inner);
    assert(remote_revset(bookmark).skip(opening.len() as int) =~= inner);
    quoted_names_bookmark(bookmark, rest);
}

/// The commits that a bookmark is ahead are those that it has and that none of
/// its remote copies has: in `x..y`, the remotes' bookmarks of its name stand
/// first and the local bookmark of its name last.
pub proof fn ahead_is_what_the_bookmark_has_and_the_remote_lacks(bookmark: Seq<char>)
    ensures
        exists|local: Seq<char>|
            is_bookmark_call(
                ahead_revset(bookmark),
                remote_bookmarks(),
                bookmark,
                #[trigger] up_to(local),
            ) && is_bookmark_call(local, local_bookmarks(), bookmark, Seq::empty()),
{
    reveal_strlit("remote_bookmarks(exact:\"");
    reveal_strlit("\")..bookmarks(exact:\"");
    reveal_strlit("\")");
    let exact = seq!['(', 'e', 'x', 'a', 'c', 't', ':'];
    let end = seq![')'] + Seq::<char>::empty();
    let name = seq!['"'] + escaped(bookmark).push('"');
    let local = local_bookmarks() + exact + (name + end);
    assert(local.skip((local_bookmarks() + exact).len() as int) =~= name + end);
    quoted_names_bookmark(bookmark, end);
    assert(is_bookmark_call(local, local_bookmarks(), bookmark, Seq::empty()));
    let opening = remote_bookmarks() + exact;
    let rest = seq![')'] + up_to(local);
    assert(ahead_revset(bookmark) =~= opening + (name + rest));
    assert(ahead_revset(bookmark).skip(opening.len() as int) =~= name + rest);
    quoted_names_bookmark(bookmark, rest);
}

/// The questions for commits are put to the log of the repository, about the
/// revset, without a graph and without touching a working copy; every commit is
/// one line that is not blank.
pub proof fn commits_are_asked_of_the_log(repo: Seq<u8>, revset: Seq<char>)
    ensures
        ({
            let q = commits_query(repo, revset);
            &&& q.len() == 9
            &&& q[0] == seq!['-', 'R']
            &&& q[1] == bytes::text_of(repo)
            &&& q[2] == "--ignore-working-copy"@
            &&& q[3] == seq!['l', 'o', 'g']
            &&& q[4] == "--no-graph"@
            &&& q[5] == seq!['-', 'r']
            &&& q[6] == revset
            &&& q[7] == seq!['-', 'T']
            &&& q[8] == seq!['"', 'x', '\\', 'n', '"']
        }),
{
    reveal_strlit("-R");
    reveal_strlit("log");
    reveal_strlit("-r");
    reveal_strlit("-T");
    reveal_strlit("\"x\\n\"");
    let q = commits_query(repo, revset);
    assert(q[0] =~= seq!['-', 'R']);
    assert(q[3] =~= seq!['l', 'o', 'g']);
    assert(q[5] =~= seq!['-', 'r']);
    assert(q[7] =~= seq!['-', 'T']);
    assert(q[8] =~= seq!['"', 'x', '\\', 'n', '"']);
}

/// The label of a commit is asked of the log of the repository: the names,
/// separated by commas, of the bookmarks at the one nearest ancestor of the
/// commit that has any.
pub proof fn the_nearest_bookmarks_are_asked_for(repo: Seq<u8>, commit: Seq<char>)
    ensures
        ({
            let q = bookmark_query(repo, commit);
            let opening = seq!['h', 'e', 'a', 'd', 's', '(', ':', ':'];
            &&& q.len() == 11
            &&& q[0] == seq!['-', 'R']
            &&& q[1] == bytes::text_of(repo)
            &&& q[2] == "--ignore-working-copy"@
            &&& q[3] == seq!['l', 'o', 'g']
            &&& q[4] == "--no-graph"@
            &&& q[5] == "--limit"@
            &&& q[6] == seq!['1']
            &&& q[7] == seq!['-', 'r']
            &&& opening.is_prefix_of(q[8])
            &&& commit.is_prefix_of(q[8].skip(8))
            &&& q[8].skip(8).skip(commit.len() as int) == " & bookmarks())"@
            &&& q[9] == seq!['-', 'T']
            &&& q[10] == "bookmarks.map(|b| b.name()).join(\",\") ++ \"\\n\""@
        }),
{
    reveal_strlit("-R");
    reveal_strlit("log");
    reveal_strlit("1");
    reveal_strlit("-r");
    reveal_strlit("-T");
    reveal_strlit("heads(::");
    let q = bookmark_query(repo, commit);
    let opening = seq!['h', 'e', 'a', 'd', 's', '(', ':', ':'];
    assert(q[0] =~= seq!['-', 'R']);
    assert(q[3] =~= seq!['l', 'o', 'g']);
    assert(q[6] =~= seq!['1']);
    assert(q[7] =~= seq!['-', 'r']);
    assert(q[9] =~= seq!['-', 'T']);
    assert("heads(::"@ =~= opening);
    assert(q[8].skip(8) =~= commit + " & bookmarks())"@);
    assert(q[8].skip(8).skip(commit.len() as int) =~= " & bookmarks())"@);
}

/// The workspaces are asked of the repository with their names and commits,
/// separated by a tab, one to a line; its root is asked of a path; and the
/// changed files are asked of the workspace, as a summary of its current
/// commit.
pub proof fn other_questions_name_their_directory(repo: Seq<u8>)
    ensures
        ({
            let q = workspace_list_query(repo);
            &&& q.len() == 7
            &&& q[0] == seq!['-', 'R']
            &&& q[1] == bytes::text_of(repo)
            &&& q[2] == "--ignore-working-copy"@
            &&& q[3] == "workspace"@
            &&& q[4] == "list"@
            &&& q[5] == seq!['-', 'T']
            &&& q[6] == "name ++ \"\\t\" ++ target.commit_id() ++ \"\\n\""@
        }),
        ({
            let q = root_query(repo);
            &&& q.len() == 3
            &&& q[0] == seq!['-', 'R']
            &&& q[1] == bytes::text_of(repo)
            &&& q[2] == "root"@
        }),
        ({
            let q = dirty_query(repo);
            &&& q.len() == 7
            &&& q[0] == seq!['-', 'R']
            &&& q[1] == bytes::text_of(repo)
            &&& q[2] == "diff"@
            &&& q[3] == seq!['-', 'r']
            &&& q[4] == seq!['@']
            &&& q[5] == "--summary"@
            &&& q[6] == "--no-pager"@
        }),
{
    reveal_strlit("-R");
    reveal_strlit("-T");
    reveal_strlit("-r");
    reveal_strlit("@");
    assert("-R"@ =~= seq!['-', 'R']);
    assert("-T"@ =~= seq!['-', 'T']);
    assert("-r"@ =~= seq!['-', 'r']);
    assert("@"@ =~= seq!['@']);
}

} // verus!
