//! Finding the workspaces of a jj repository and reading their status.
use vstd::prelude::*;
use vstd::utf8;

use crate::config::RepoConfig;
pub use crate::jj::status::load_workspace_info;
use crate::paths;
use crate::paths::FilePath;
use crate::text;
use crate::text::{
    chars_le, chars_of_range, concat2, find_char, from_chars, line_chars, split_chars, str_eq,
    string_of_range, to_chars, trim_chars,
};
use crate::vcs;
use crate::vcs::{VcsBackend, WorktreeSource, WorktreeSourceView};

verus! {

// ---------------------------------------------------------------------------
// Workspace names
// ---------------------------------------------------------------------------

/// Whether the character may stand in a workspace name.
pub open spec fn is_name_char(c: char) -> bool {
    ||| 'a' <= c <= 'z'
    ||| 'A' <= c <= 'Z'
    ||| '0' <= c <= '9'
    ||| c == '-'
    ||| c == '_'
    ||| c == '.'
}

/// Whether the segment is a plain identifier that names no other directory.
pub open spec fn is_safe_segment(segment: Seq<char>) -> bool {
    &&& segment.len() > 0
    &&& segment != seq!['.']
    &&& segment != seq!['.', '.']
    &&& forall|i: int| 0 <= i < segment.len() ==> is_name_char(#[trigger] segment[i])
}

/// Whether the name can be used as a path below a directory and as an argument
/// of `jj`: slash-separated plain identifiers, the first of which does not look
/// like an option.
pub open spec fn is_safe_name(name: Seq<char>) -> bool {
    &&& name.len() > 0
    &&& name[0] != '-'
    &&& forall|i: int|
        0 <= i < text::split_on(name, '/').len() ==> is_safe_segment(
            #[trigger] text::split_on(name, '/')[i],
        )
}

fn is_plain(c: char) -> (r: bool)
    ensures
        r == is_name_char(c),
{
    ('a' <= c && c <= 'z') || ('A' <= c && c <= 'Z') || ('0' <= c && c <= '9') || c == '-' || c
        == '_' || c == '.'
}

fn is_plain_segment(segment: &Vec<char>) -> (r: bool)
    ensures
        r == is_safe_segment(segment@),
{
    let n: usize = segment.len();
    if n == 0 {
        return false;
    }
    if n == 1 && segment[0] == '.' {
        assert(segment@ =~= seq!['.']);
        return false;
    }
    if n == 2 && segment[0] == '.' && segment[1] == '.' {
        assert(segment@ =~= seq!['.', '.']);
        return false;
    }
    proof {
        if segment@ == seq!['.'] {
            assert(segment@[0] == '.');
        }
        if segment@ == seq!['.', '.'] {
            assert(segment@[0] == '.' && segment@[1] == '.');
        }
    }
    let mut i: usize = 0;
    while i < n
        invariant
            i <= n,
            n == segment.len(),
            forall|j: int| 0 <= j < i ==> is_name_char(#[trigger] segment@[j]),
        decreases n - i,
    {
        if !is_plain(segment[i]) {
            return false;
        }
        i += 1;
    }
    true
}

/// Whether the name can be used as a path below a directory and as an argument
/// of `jj`.
pub fn is_safe_workspace_name(name: &str) -> (r: bool)
    ensures
        r == is_safe_name(name@),
{
    let v = to_chars(name);
    is_safe_name_chars(&v)
}

fn is_safe_name_chars(v: &Vec<char>) -> (r: bool)
    ensures
        r == is_safe_name(v@),
{
    if v.len() == 0 || v[0] == '-' {
        return false;
    }
    let fields = split_chars(v, '/');
    let ghost all = text::split_on(v@, '/');
    let mut i: usize = 0;
    while i < fields.len()
        invariant
            i <= fields.len(),
            all == text::split_on(v@, '/'),
            text::chars_view(fields@) == all,
            fields.len() == all.len(),
            forall|j: int| 0 <= j < i ==> is_safe_segment(#[trigger] all[j]),
        decreases fields.len() - i,
    {
        assert(fields@[i as int]@ == all[i as int]);
        if !is_plain_segment(&fields[i]) {
            return false;
        }
        i += 1;
    }
    true
}

// ---------------------------------------------------------------------------
// Workspace listing
// ---------------------------------------------------------------------------

/// The name and the commit that a line of the listing gives, if its name is
/// safe.
pub open spec fn entry_of(line: Seq<char>) -> Option<(Seq<char>, Seq<char>)> {
    match text::split_once(text::trim(line), '\t') {
        Some((name, commit)) => if is_safe_name(name) {
            Some((name, commit))
        } else {
            None
        },
        None => None,
    }
}

/// The entries of the lines, in order.
pub open spec fn entries_of(lines: Seq<Seq<char>>) -> Seq<(Seq<char>, Seq<char>)>
    decreases lines.len(),
{
    if lines.len() == 0 {
        Seq::empty()
    } else {
        let front = entries_of(lines.drop_last());
        match entry_of(lines.last()) {
            Some(e) => front.push(e),
            None => front,
        }
    }
}

/// The entries as characters.
pub open spec fn entries_view(v: Seq<(String, String)>) -> Seq<(Seq<char>, Seq<char>)> {
    v.map_values(|e: (String, String)| (e.0@, e.1@))
}

/// Reads the output of the workspace listing, one `name<TAB>commit` line per
/// workspace, as pairs. Blank lines, lines without a tab and names that are
/// not safe are skipped.
pub fn parse_workspace_entries(stdout: &str) -> (entries: Vec<(String, String)>)
    ensures
        entries_view(entries@) == entries_of(text::lines(stdout@)),
{
    let v = to_chars(stdout);
    let lines = line_chars(&v);
    let ghost all = text::lines(stdout@);
    let mut entries: Vec<(String, String)> = Vec::new();
    let mut i: usize = 0;
    assert(all.take(0) =~= Seq::empty());
    assert(entries_view(entries@) =~= Seq::empty());
    while i < lines.len()
        invariant
            i <= lines.len(),
            text::chars_view(lines@) == all,
            lines.len() == all.len(),
            entries_view(entries@) == entries_of(all.take(i as int)),
        decreases lines.len() - i,
    {
        assert(lines@[i as int]@ == all[i as int]);
        assert(all.take(i + 1).drop_last() =~= all.take(i as int));
        let ghost before = entries_view(entries@);
        let line = trim_chars(&lines[i]);
        let tab: usize = find_char(&line, '\t');
        if tab < line.len() {
            let name = chars_of_range(&line, 0, tab);
            assert(name@ =~= line@.take(tab as int));
            if is_safe_name_chars(&name) {
                let commit = string_of_range(&line, tab + 1, line.len());
                assert(commit@ =~= line@.skip(tab + 1));
                entries.push((from_chars(&name), commit));
                assert(entries_view(entries@) =~= before.push((name@, commit@)));
            }
        }
        i += 1;
    }
    assert(all.take(all.len() as int) =~= all);
    entries
}

/// Every entry that is read has a safe name.
pub proof fn entries_have_safe_names(lines: Seq<Seq<char>>)
    ensures
        forall|i: int|
            0 <= i < entries_of(lines).len() ==> is_safe_name((#[trigger] entries_of(lines)[i]).0),
    decreases lines.len(),
{
    if lines.len() > 0 {
        let front = entries_of(lines.drop_last());
        let all = entries_of(lines);
        entries_have_safe_names(lines.drop_last());
        assert forall|i: int| 0 <= i < all.len() implies is_safe_name((#[trigger] all[i]).0) by {
            if i < front.len() {
                assert(all[i] == front[i]);
            }
        }
    }
}

/// A safe name joined to a directory appends its slash-separated parts to the
/// path, and none of them leads back up.
pub proof fn safe_name_stays_below(dir: Seq<u8>, name: Seq<char>)
    requires
        is_safe_name(name),
    ensures
        paths::segments(paths::join_text_of(dir, name)) == paths::segments(dir) + paths::parts_of(
            name,
        ),
        forall|i: int|
            0 <= i < paths::parts_of(name).len() ==> !paths::leads_up(
                #[trigger] paths::parts_of(name)[i],
            ),
{
    let fields = text::split_on(name, '/');
    let rel = utf8::encode_utf8(name);
    let parts = paths::parts_of(name);
    safe_name_is_ascii(name);
    paths::parts_are_fields(name);
    assert forall|i: int| 0 <= i < parts.len() implies paths::is_segment(#[trigger] parts[i])
        && !paths::leads_up(parts[i]) by {
        assert(is_safe_segment(fields[i]));
        assert(parts[i] == utf8::encode_utf8(fields[i]));
        safe_segment_as_bytes(fields[i]);
    }
    assert(!paths::is_rooted(rel)) by {
        if paths::is_rooted(rel) {
            leading_separator(rel, paths::SLASH);
            assert(parts[0].len() == 0);
            assert(paths::is_segment(parts[0]));
        }
    }
    paths::join_appends_segments(dir, rel);
    all_segments_stay(parts);
}

/// A safe name is ASCII.
proof fn safe_name_is_ascii(name: Seq<char>)
    requires
        is_safe_name(name),
    ensures
        utf8::is_ascii_chars(name),
{
    let fields = text::split_on(name, '/');
    assert forall|i: int| 0 <= i < name.len() implies '\0' <= #[trigger] name[i] <= '\u{7f}' by {
        if name[i] != '/' {
            text::split_on_covers(name, '/', i);
            let (k, j) = choose|k: int, j: int|
                0 <= k < fields.len() && 0 <= j < fields[k].len() && #[trigger] fields[k][j]
                    == name[i];
            assert(is_safe_segment(fields[k]));
            assert(is_name_char(fields[k][j]));
        }
    }
}

/// A safe segment names one directory, below the one it is looked up in.
proof fn safe_segment_as_bytes(segment: Seq<char>)
    requires
        is_safe_segment(segment),
    ensures
        paths::is_segment(utf8::encode_utf8(segment)),
        !paths::leads_up(utf8::encode_utf8(segment)),
{
    let b = utf8::encode_utf8(segment);
    assert(utf8::is_ascii_chars(segment)) by {
        assert forall|i: int| 0 <= i < segment.len() implies '\0' <= #[trigger] segment[i]
            <= '\u{7f}' by {
            assert(is_name_char(segment[i]));
        }
    }
    utf8::is_ascii_chars_encode_utf8(segment);
    assert forall|i: int| 0 <= i < segment.len() && b[i] == paths::DOT implies #[trigger] segment[i]
        == '.' by {
        assert('\0' <= segment[i] <= '\u{7f}');
    }
    if b == seq![paths::DOT] {
        assert(b[0] == paths::DOT && b.len() == 1);
        assert(segment =~= seq!['.']);
    }
    if b == seq![paths::DOT, paths::DOT] {
        assert(b[0] == paths::DOT && b[1] == paths::DOT && b.len() == 2);
        assert(segment[0] == '.' && segment[1] == '.');
        assert(segment =~= seq!['.', '.']);
    }
}

/// What starts with the separator has an empty first field.
proof fn leading_separator(s: Seq<u8>, sep: u8)
    requires
        s.len() > 0,
        s[0] == sep,
    ensures
        text::split_on(s, sep).len() >= 2,
        text::split_on(s, sep)[0].len() == 0,
    decreases s.len(),
{
    text::split_on_nonempty(s.drop_last(), sep);
    if s.len() > 1 {
        leading_separator(s.drop_last(), sep);
    } else {
        assert(s.drop_last() =~= Seq::empty());
    }
}

proof fn all_segments_stay(fields: Seq<Seq<u8>>)
    requires
        forall|i: int| 0 <= i < fields.len() ==> paths::is_segment(#[trigger] fields[i]),
    ensures
        paths::keep_segments(fields) == fields,
    decreases fields.len(),
{
    if fields.len() > 0 {
        assert(paths::is_segment(fields[fields.len() - 1]));
        assert forall|i: int| 0 <= i < fields.drop_last().len() implies paths::is_segment(
            #[trigger] fields.drop_last()[i],
        ) by {
            assert(fields.drop_last()[i] == fields[i]);
        }
        all_segments_stay(fields.drop_last());
        assert(fields.drop_last().push(fields.last()) =~= fields);
    } else {
        assert(paths::keep_segments(fields) =~= fields);
    }
}

// ---------------------------------------------------------------------------
// Bookmarks
// ---------------------------------------------------------------------------

/// The fields that are not blank, trimmed, in order.
pub open spec fn nonblank_trimmed(fields: Seq<Seq<char>>) -> Seq<Seq<char>>
    decreases fields.len(),
{
    if fields.len() == 0 {
        Seq::empty()
    } else {
        let front = nonblank_trimmed(fields.drop_last());
        let last = text::trim(fields.last());
        if last.len() > 0 {
            front.push(last)
        } else {
            front
        }
    }
}

/// The alphabetically first of the names.
pub open spec fn least(names: Seq<Seq<char>>) -> Seq<char>
    recommends
        names.len() > 0,
    decreases names.len(),
{
    if names.len() <= 1 {
        names[0]
    } else {
        let front = least(names.drop_last());
        if text::lex_le(front, names.last()) {
            front
        } else {
            names.last()
        }
    }
}

/// The bookmark that the first line of the output names: the alphabetically
/// first of the comma-separated names.
pub open spec fn bookmark_in(stdout: Seq<char>) -> Option<Seq<char>> {
    let lines = text::lines(stdout);
    if lines.len() == 0 {
        None
    } else {
        let names = nonblank_trimmed(text::split_on(text::trim(lines[0]), ','));
        if names.len() == 0 {
            None
        } else {
            Some(least(names))
        }
    }
}

/// Reads a line of comma-separated bookmark names. Where several bookmarks are
/// at one commit, the alphabetically first is taken.
pub fn parse_bookmark_line(stdout: &str) -> (r: Option<String>)
    ensures
        text::opt_view(r) == bookmark_in(stdout@),
{
    let v = to_chars(stdout);
    let lines = line_chars(&v);
    if lines.len() == 0 {
        return None;
    }
    let ghost first = text::lines(stdout@)[0];
    assert(lines@[0]@ == first);
    let line = trim_chars(&lines[0]);
    let fields = split_chars(&line, ',');
    let ghost all = text::split_on(text::trim(first), ',');
    let mut best: Option<Vec<char>> = None;
    let mut i: usize = 0;
    assert(all.take(0) =~= Seq::empty());
    while i < fields.len()
        invariant
            i <= fields.len(),
            text::chars_view(fields@) == all,
            fields.len() == all.len(),
            match best {
                None => nonblank_trimmed(all.take(i as int)).len() == 0,
                Some(b) => nonblank_trimmed(all.take(i as int)).len() > 0 && b@ == least(
                    nonblank_trimmed(all.take(i as int)),
                ),
            },
        decreases fields.len() - i,
    {
        assert(fields@[i as int]@ == all[i as int]);
        assert(all.take(i + 1).drop_last() =~= all.take(i as int));
        let name = trim_chars(&fields[i]);
        let ghost names = nonblank_trimmed(all.take(i as int));
        if name.len() > 0 {
            assert(names.push(name@).drop_last() =~= names);
            match &best {
                Some(b) => {
                    if !chars_le(b, &name) {
                        best = Some(name);
                    }
                },
                None => {
                    best = Some(name);
                },
            }
        }
        i += 1;
    }
    assert(all.take(all.len() as int) =~= all);
    match best {
        Some(b) => Some(from_chars(&b)),
        None => None,
    }
}

/// The least of the names is one of them, and comes before each of them.
pub proof fn least_is_first(names: Seq<Seq<char>>)
    requires
        names.len() > 0,
    ensures
        names.contains(least(names)),
        forall|i: int| 0 <= i < names.len() ==> text::lex_le(least(names), #[trigger] names[i]),
    decreases names.len(),
{
    if names.len() == 1 {
        text::lex_le_reflexive(names[0]);
        assert(names.contains(names[0]));
    } else {
        let front = names.drop_last();
        least_is_first(front);
        let f = least(front);
        let k = choose|k: int| 0 <= k < front.len() && front[k] == f;
        assert(names[k] == f);
        assert(names[names.len() - 1] == names.last());
        text::lex_le_total(f, names.last());
        assert forall|i: int| 0 <= i < names.len() implies text::lex_le(
            least(names),
            #[trigger] names[i],
        ) by {
            if i < front.len() {
                assert(front[i] == names[i]);
                if !text::lex_le(f, names.last()) {
                    text::lex_le_transitive(names.last(), f, names[i]);
                }
            } else {
                text::lex_le_reflexive(names.last());
            }
        }
    }
}

// ---------------------------------------------------------------------------
// Counting
// ---------------------------------------------------------------------------

/// How many of the lines are not blank.
pub open spec fn nonblank_count(lines: Seq<Seq<char>>) -> nat
    decreases lines.len(),
{
    if lines.len() == 0 {
        0
    } else {
        nonblank_count(lines.drop_last()) + (if text::trim(lines.last()).len() > 0 {
            1nat
        } else {
            0nat
        })
    }
}

/// How many lines of the text are not blank, as a 32-bit number.
pub open spec fn nonblank_lines(stdout: Seq<char>) -> u32 {
    nonblank_count(text::lines(stdout)) as u32
}

/// How many lines of the text are not blank.
pub fn count_nonblank_lines(stdout: &str) -> (n: u32)
    ensures
        n == nonblank_lines(stdout@),
        nonblank_count(text::lines(stdout@)) <= u32::MAX ==> n == nonblank_count(
            text::lines(stdout@),
        ),
{
    let v = to_chars(stdout);
    let lines = line_chars(&v);
    let ghost all = text::lines(stdout@);
    let mut n: usize = 0;
    let mut i: usize = 0;
    assert(all.take(0) =~= Seq::empty());
    while i < lines.len()
        invariant
            i <= lines.len(),
            text::chars_view(lines@) == all,
            lines.len() == all.len(),
            n <= i,
            n == nonblank_count(all.take(i as int)),
        decreases lines.len() - i,
    {
        assert(lines@[i as int]@ == all[i as int]);
        assert(all.take(i + 1).drop_last() =~= all.take(i as int));
        let t = trim_chars(&lines[i]);
        if t.len() > 0 {
            n += 1;
        }
        i += 1;
    }
    assert(all.take(all.len() as int) =~= all);
    n as u32
}

// ---------------------------------------------------------------------------
// Validation and discovery
// ---------------------------------------------------------------------------

/// What to tell the user about a directory that jj cannot use, given the
/// path's `{:?}` form.
pub fn unusable_repo_message(debug_form: &str) -> (r: String)
    ensures
        r@ == debug_form@ + " is not a usable jj repo"@,
{
    concat2(debug_form, " is not a usable jj repo")
}

/// Whether the repository at `path` is usable, given what jj answered to the
/// question for its root.
pub fn validate_jj_repo(path: &FilePath, root: &Result<String, String>) -> (r: Result<(), String>)
    ensures
        r is Ok <==> root is Ok,
        r matches Err(e) ==> e@ == paths::debug_form(path@) + " is not a usable jj repo"@,
{
    match root {
        Ok(_) => Ok(()),
        Err(_) => {
            let shown = paths::debug_path(path);
            Err(unusable_repo_message(shown.as_str()))
        },
    }
}

/// Where the workspace of an entry should be: the repository itself for
/// `default`, else the sibling directory of that name.
pub open spec fn candidate_of(repo: Seq<u8>, entry: (Seq<char>, Seq<char>)) -> Option<
    WorktreeSourceView,
> {
    let is_main = entry.0 == "default"@;
    let path = if is_main {
        Some(repo)
    } else {
        match paths::parent_of(repo) {
            Some(dir) => Some(paths::join_text_of(dir, entry.0)),
            None => None,
        }
    };
    match path {
        Some(path) => Some(
            WorktreeSourceView {
                path,
                is_main,
                name: Some(entry.0),
                backend: VcsBackend::Jj,
                repo_path: repo,
                commit_id: Some(entry.1),
            },
        ),
        None => None,
    }
}

/// The places where the workspaces of the entries should be, in order.
pub open spec fn candidates_of(repo: Seq<u8>, entries: Seq<(Seq<char>, Seq<char>)>) -> Seq<
    WorktreeSourceView,
>
    decreases entries.len(),
{
    if entries.len() == 0 {
        Seq::empty()
    } else {
        let front = candidates_of(repo, entries.drop_last());
        match candidate_of(repo, entries.last()) {
            Some(c) => front.push(c),
            None => front,
        }
    }
}

/// The places where the listed workspaces should be. A workspace other than
/// `default` is skipped where the repository has no parent directory.
pub fn workspace_candidates(config: &RepoConfig, stdout: &str) -> (r: Vec<WorktreeSource>)
    ensures
        vcs::sources_view(r@) == candidates_of(
            config@.path,
            entries_of(text::lines(stdout@)),
        ),
{
    let entries = parse_workspace_entries(stdout);
    let ghost all = entries_of(text::lines(stdout@));
    let dir = paths::parent(&config.path);
    let mut r: Vec<WorktreeSource> = Vec::new();
    let mut i: usize = 0;
    assert(all.take(0) =~= Seq::empty());
    assert(vcs::sources_view(r@) =~= Seq::empty());
    while i < entries.len()
        invariant
            i <= entries.len(),
            entries_view(entries@) == all,
            entries.len() == all.len(),
            paths::opt_view(dir) == paths::parent_of(config@.path),
            vcs::sources_view(r@) == candidates_of(config@.path, all.take(i as int)),
        decreases entries.len() - i,
    {
        let entry: &(String, String) = &entries[i];
        assert((entry.0@, entry.1@) == all[i as int]);
        assert(all.take(i + 1).drop_last() =~= all.take(i as int));
        let ghost before = vcs::sources_view(r@);
        let is_main: bool = str_eq(entry.0.as_str(), "default");
        let path: Option<FilePath> = if is_main {
            Some(config.path.clone())
        } else {
            match &dir {
                Some(d) => Some(paths::join_text(d, entry.0.as_str())),
                None => None,
            }
        };
        if let Some(path) = path {
            let source = WorktreeSource {
                path,
                is_main,
                name: Some(entry.0.clone()),
                backend: VcsBackend::Jj,
                repo_path: config.path.clone(),
                commit_id: Some(entry.1.clone()),
            };
            let ghost c = source@;
            r.push(source);
            assert(vcs::sources_view(r@) =~= before.push(c));
        }
        i += 1;
    }
    assert(all.take(all.len() as int) =~= all);
    r
}

/// The candidates that are present.
pub open spec fn kept_candidates(
    candidates: Seq<WorktreeSourceView>,
    present: Seq<bool>,
) -> Seq<WorktreeSourceView>
    decreases candidates.len(),
{
    if candidates.len() == 0 {
        Seq::empty()
    } else {
        let n = candidates.len() - 1;
        let front = kept_candidates(candidates.drop_last(), present);
        if n < present.len() && present[n] {
            front.push(candidates.last())
        } else {
            front
        }
    }
}

/// What to tell the user about a repository whose workspaces jj cannot list,
/// given the path's `{:?}` form.
pub fn unlisted_message(debug_form: &str) -> (r: String)
    ensures
        r@ == "Failed to list jj workspaces for "@ + debug_form@,
{
    concat2("Failed to list jj workspaces for ", debug_form)
}

/// The workspaces of a jj repository, given what jj answered to the listing
/// and, for each candidate of that listing, whether its `.jj` directory is
/// present. Candidates that are not present are skipped.
pub fn list_workspace_paths(
    config: &RepoConfig,
    listing: &Result<String, String>,
    present: &Vec<bool>,
) -> (r: Result<Vec<WorktreeSource>, String>)
    ensures
        match (*listing, r) {
            (Ok(out), Ok(sources)) => vcs::sources_view(sources@) == kept_candidates(
                candidates_of(config@.path, entries_of(text::lines(out@))),
                present@,
            ),
            (Err(_), Err(e)) => e@ == "Failed to list jj workspaces for "@ + paths::debug_form(
                config@.path,
            ),
            _ => false,
        },
{
    match listing {
        Ok(out) => {
            let candidates = workspace_candidates(config, out.as_str());
            Ok(keep_present(candidates, present))
        },
        Err(_) => {
            let shown = paths::debug_path(&config.path);
            Err(unlisted_message(shown.as_str()))
        },
    }
}

/// The candidates that are present.
fn keep_present(candidates: Vec<WorktreeSource>, present: &Vec<bool>) -> (r: Vec<WorktreeSource>)
    ensures
        vcs::sources_view(r@) == kept_candidates(vcs::sources_view(candidates@), present@),
{
    let ghost all = vcs::sources_view(candidates@);
    let n: usize = candidates.len();
    let mut r: Vec<WorktreeSource> = Vec::new();
    let mut i: usize = 0;
    assert(all.take(0) =~= Seq::empty());
    assert(vcs::sources_view(r@) =~= Seq::empty());
    for candidate in it: candidates
        invariant
            vcs::sources_view(it.seq()) == all,
            i == it.index(),
            i <= all.len(),
            all.len() == n,
            vcs::sources_view(r@) == kept_candidates(all.take(i as int), present@),
    {
        assert(candidate@ == all[i as int]);
        assert(all.take(i + 1).drop_last() =~= all.take(i as int));
        let ghost before = vcs::sources_view(r@);
        let ghost c = candidate@;
        if i < present.len() && present[i] {
            r.push(candidate);
            assert(vcs::sources_view(r@) =~= before.push(c));
        }
        i += 1;
    }
    assert(all.take(all.len() as int) =~= all);
    r
}

/// Whether the source is a workspace of the repository: owned by jj, with a
/// name and a commit, and the main one exactly when it is named `default`.
pub open spec fn is_workspace_of(source: WorktreeSourceView, repo: Seq<u8>) -> bool {
    &&& source.backend == VcsBackend::Jj
    &&& source.name is Some
    &&& source.commit_id is Some
    &&& source.repo_path == repo
    &&& source.is_main <==> source.name == Some("default"@)
    &&& source.is_main ==> source.path == repo
}

/// Every workspace that jj lists is owned by jj and has a name and a commit.
/// The one named `default` is the main one and lies at the repository itself.
pub proof fn listed_workspaces_are_jj(
    repo: Seq<u8>,
    entries: Seq<(Seq<char>, Seq<char>)>,
    present: Seq<bool>,
)
    ensures
        forall|i: int|
            0 <= i < kept_candidates(candidates_of(repo, entries), present).len()
                ==> is_workspace_of(
                #[trigger] kept_candidates(candidates_of(repo, entries), present)[i],
                repo,
            ),
{
    candidates_are_workspaces(repo, entries);
    kept_candidates_are_candidates(repo, candidates_of(repo, entries), present);
}

/// Every candidate is a workspace of the repository.
proof fn candidates_are_workspaces(repo: Seq<u8>, entries: Seq<(Seq<char>, Seq<char>)>)
    ensures
        forall|i: int|
            0 <= i < candidates_of(repo, entries).len() ==> is_workspace_of(
                #[trigger] candidates_of(repo, entries)[i],
                repo,
            ),
    decreases entries.len(),
{
    if entries.len() > 0 {
        let front = candidates_of(repo, entries.drop_last());
        let all = candidates_of(repo, entries);
        candidates_are_workspaces(repo, entries.drop_last());
        assert forall|i: int| 0 <= i < all.len() implies is_workspace_of(
            #[trigger] all[i],
            repo,
        ) by {
            if i < front.len() {
                assert(all[i] == front[i]);
            }
        }
    }
}

/// Dropping candidates leaves workspaces of the repository.
proof fn kept_candidates_are_candidates(
    repo: Seq<u8>,
    candidates: Seq<WorktreeSourceView>,
    present: Seq<bool>,
)
    requires
        forall|i: int|
            0 <= i < candidates.len() ==> is_workspace_of(#[trigger] candidates[i], repo),
    ensures
        forall|i: int|
            0 <= i < kept_candidates(candidates, present).len() ==> is_workspace_of(
                #[trigger] kept_candidates(candidates, present)[i],
                repo,
            ),
    decreases candidates.len(),
{
    if candidates.len() > 0 {
        let shorter = candidates.drop_last();
        let front = kept_candidates(shorter, present);
        let all = kept_candidates(candidates, present);
        assert forall|i: int| 0 <= i < shorter.len() implies is_workspace_of(
            #[trigger] shorter[i],
            repo,
        ) by {
            assert(shorter[i] == candidates[i]);
        }
        kept_candidates_are_candidates(repo, shorter, present);
        let last = candidates[candidates.len() - 1];
        assert(is_workspace_of(last, repo));
        assert forall|i: int| 0 <= i < all.len() implies is_workspace_of(
            #[trigger] all[i],
            repo,
        ) by {
            if i < front.len() {
                assert(all[i] == front[i]);
            }
        }
    }
}

// ---------------------------------------------------------------------------
// Laws
// ---------------------------------------------------------------------------

/// The places of the lines that hold more than white space.
pub open spec fn nonblank_places(lines: Seq<Seq<char>>) -> Set<int> {
    Set::new(
        |i: int|
            0 <= i < lines.len() && exists|k: int|
                0 <= k < lines[i].len() && !text::is_white_space(#[trigger] lines[i][k]),
    )
}

/// Every line that holds more than white space is counted, and no other.
pub proof fn nonblank_lines_are_counted(lines: Seq<Seq<char>>)
    ensures
        nonblank_places(lines).finite(),
        nonblank_count(lines) == nonblank_places(lines).len(),
        nonblank_count(lines) <= lines.len(),
    decreases lines.len(),
{
    let all = nonblank_places(lines);
    if lines.len() == 0 {
        assert(all =~= Set::empty());
    } else {
        let n = lines.len() - 1;
        let front = nonblank_places(lines.drop_last());
        nonblank_lines_are_counted(lines.drop_last());
        text::trimming_takes_white_space(lines[n]);
        assert(!front.contains(n));
        assert forall|i: int| 0 <= i < n implies front.contains(i) == all.contains(i) by {
            assert(lines.drop_last()[i] == lines[i]);
        }
        if text::trim(lines[n]).len() > 0 {
            assert(all =~= front.insert(n));
        } else {
            assert(all =~= front);
        }
    }
}

/// Where jj writes one word to a line, as many lines are counted as words were
/// written.
pub proof fn written_words_are_counted(words: Seq<Seq<char>>)
    requires
        words.len() <= u32::MAX,
        forall|i: int|
            0 <= i < words.len() ==> text::fits_on_a_line(#[trigger] words[i]) && words[i].len() > 0
                && !text::is_white_space(words[i][0]),
    ensures
        nonblank_lines(text::ended_lines(words, seq!['\n'])) == words.len(),
{
    text::lines_read_back(words);
    nonblank_lines_are_counted(words);
    let all = nonblank_places(words);
    assert forall|i: int| 0 <= i < words.len() implies all.contains(i) by {
        assert(text::fits_on_a_line(words[i]));
        assert(!text::is_white_space(words[i][0]));
    }
    assert(all =~= vstd::set_lib::set_int_range(0, words.len() as int));
    vstd::set_lib::lemma_int_range(0, words.len() as int);
}

/// A line of the listing is an entry exactly when, without the white space
/// around it, a safe name stands before its first tab; the rest is the commit.
pub proof fn an_entry_is_a_safe_name_and_a_commit(line: Seq<char>)
    ensures
        entry_of(line) matches Some((name, commit)) ==> text::trim(line) == name.push('\t') + commit
            && !name.contains('\t') && is_safe_name(name),
        entry_of(line) is None ==> forall|name: Seq<char>, commit: Seq<char>|
            text::trim(line) == #[trigger] (name.push('\t') + commit) && !name.contains('\t')
                ==> !is_safe_name(name),
{
    let t = text::trim(line);
    text::split_once_gives_both_sides(t, '\t');
    if entry_of(line) is None {
        assert forall|name: Seq<char>, commit: Seq<char>|
            t == #[trigger] (name.push('\t') + commit) && !name.contains('\t') implies
            !is_safe_name(name) by {
            assert(t[name.len() as int] == '\t');
            let (a, b) = text::split_once(t, '\t')->0;
            if a.len() < name.len() {
                assert(name[a.len() as int] == t[a.len() as int]);
                assert((a.push('\t') + b)[a.len() as int] == '\t');
            }
            if name.len() < a.len() {
                assert(a[name.len() as int] == t[name.len() as int]);
            }
            assert(a =~= name) by {
                assert forall|i: int| 0 <= i < a.len() implies a[i] == name[i] by {
                    assert(t[i] == a[i]);
                    assert(t[i] == name[i]);
                }
            }
        }
    }
}

/// Lines are read one by one, in order.
pub proof fn entries_are_read_in_order(a: Seq<Seq<char>>, b: Seq<Seq<char>>)
    ensures
        entries_of(a + b) == entries_of(a) + entries_of(b),
        a.len() == 1 && entry_of(a[0]) is Some ==> entries_of(a) == seq![entry_of(a[0])->0],
        a.len() == 1 && entry_of(a[0]) is None ==> entries_of(a).len() == 0,
    decreases b.len(),
{
    if a.len() == 1 {
        assert(a.drop_last() =~= Seq::empty());
        assert(entries_of(a.drop_last()) =~= Seq::empty());
        if entry_of(a[0]) is Some {
            assert(entries_of(a) =~= seq![entry_of(a[0])->0]);
        }
    }
    if b.len() == 0 {
        assert(a + b =~= a);
        assert(entries_of(a) + entries_of(b) =~= entries_of(a));
    } else {
        assert((a + b).drop_last() =~= a + b.drop_last());
        entries_are_read_in_order(a, b.drop_last());
        assert(entries_of(a + b) =~= entries_of(a) + entries_of(b));
    }
}

/// The line that jj writes for a workspace.
pub open spec fn listing_line(entry: (Seq<char>, Seq<char>)) -> Seq<char> {
    entry.0.push('\t') + entry.1
}

/// Whether the text is a commit id as jj writes it: one word.
pub open spec fn is_word(s: Seq<char>) -> bool {
    s.len() > 0 && forall|i: int| 0 <= i < s.len() ==> !text::is_white_space(#[trigger] s[i])
}

/// What jj lists is read back: every workspace with a safe name, with its
/// commit, in the order of the listing.
pub proof fn the_listing_is_read_back(entries: Seq<(Seq<char>, Seq<char>)>)
    requires
        forall|i: int|
            0 <= i < entries.len() ==> is_safe_name((#[trigger] entries[i]).0) && is_word(
                entries[i].1,
            ),
    ensures
        entries_of(
            text::lines(
                text::ended_lines(
                    entries.map_values(|e: (Seq<char>, Seq<char>)| listing_line(e)),
                    seq!['\n'],
                ),
            ),
        ) == entries,
{
    let ls = entries.map_values(|e: (Seq<char>, Seq<char>)| listing_line(e));
    assert forall|i: int| 0 <= i < ls.len() implies text::fits_on_a_line(#[trigger] ls[i])
        && entry_of(ls[i]) == Some(entries[i]) by {
        assert(is_safe_name(entries[i].0));
        listed_line_facts(entries[i].0, entries[i].1);
    }
    text::lines_read_back(ls);
    entries_of_listing(ls, entries);
}

proof fn entries_of_listing(ls: Seq<Seq<char>>, entries: Seq<(Seq<char>, Seq<char>)>)
    requires
        ls.len() == entries.len(),
        forall|i: int| 0 <= i < ls.len() ==> entry_of(#[trigger] ls[i]) == Some(entries[i]),
    ensures
        entries_of(ls) == entries,
    decreases ls.len(),
{
    if ls.len() == 0 {
        assert(entries_of(ls) =~= entries);
    } else {
        assert(entry_of(ls[ls.len() - 1]) == Some(entries[ls.len() - 1]));
        assert forall|i: int| 0 <= i < ls.drop_last().len() implies entry_of(
            #[trigger] ls.drop_last()[i],
        ) == Some(entries.drop_last()[i]) by {
            assert(ls.drop_last()[i] == ls[i]);
        }
        entries_of_listing(ls.drop_last(), entries.drop_last());
        assert(entries_of(ls) =~= entries);
    }
}

proof fn listed_line_facts(name: Seq<char>, commit: Seq<char>)
    requires
        is_safe_name(name),
        is_word(commit),
    ensures
        text::fits_on_a_line(listing_line((name, commit))),
        entry_of(listing_line((name, commit))) == Some((name, commit)),
{
    let line = name.push('\t') + commit;
    let last = commit[commit.len() - 1];
    safe_names_hold_plain_characters(name);
    assert(!text::is_white_space(last));
    assert(line.last() == last);
    assert(line[0] == name[0]);
    assert(is_name_char(name[0]) || name[0] == '/');
    text::trimming_keeps_the_rest(line);
    assert(!name.contains('\t')) by {
        if name.contains('\t') {
            let k = choose|k: int| 0 <= k < name.len() && name[k] == '\t';
            assert(is_name_char(name[k]) || name[k] == '/');
        }
    }
    assert(!line.contains('\n')) by {
        if line.contains('\n') {
            let k = choose|k: int| 0 <= k < line.len() && line[k] == '\n';
            if k < name.len() {
                assert(is_name_char(name[k]) || name[k] == '/');
            } else if k > name.len() {
                assert(!text::is_white_space(commit[k - name.len() - 1]));
            }
        }
    }
    an_entry_is_a_safe_name_and_a_commit(line);
    assert(line == name.push('\t') + commit);
    let (n, c) = entry_of(line)->0;
    assert(n =~= name) by {
        if n.len() < name.len() {
            assert((n.push('\t') + c)[n.len() as int] == '\t');
            assert(name[n.len() as int] == '\t');
        }
        if name.len() < n.len() {
            assert(line[name.len() as int] == '\t');
            assert(n[name.len() as int] == '\t');
        }
        assert forall|i: int| 0 <= i < n.len() implies n[i] == name[i] by {
            assert(line[i] == n[i]);
            assert(line[i] == name[i]);
        }
    }
    assert(c =~= commit) by {
        assert((n.push('\t') + c).skip(n.len() as int + 1) =~= c);
        assert((name.push('\t') + commit).skip(name.len() as int + 1) =~= commit);
    }
}

/// A safe name consists of letters, digits, `-`, `_`, `.` and `/`, and begins
/// with neither `-` nor `/`.
pub proof fn safe_names_hold_plain_characters(name: Seq<char>)
    requires
        is_safe_name(name),
    ensures
        name.len() > 0,
        name[0] != '-',
        name[0] != '/',
        name.last() != '/',
        forall|i: int|
            0 <= i < name.len() ==> {
                let c = #[trigger] name[i];
                ||| 'a' <= c <= 'z'
                ||| 'A' <= c <= 'Z'
                ||| '0' <= c <= '9'
                ||| c == '-'
                ||| c == '_'
                ||| c == '.'
                ||| c == '/'
            },
{
    let fields = text::split_on(name, '/');
    assert forall|i: int| 0 <= i < name.len() && #[trigger] name[i] != '/' implies is_name_char(
        name[i],
    ) by {
        text::split_on_covers(name, '/', i);
        let (k, j) = choose|k: int, j: int|
            0 <= k < fields.len() && 0 <= j < fields[k].len() && #[trigger] fields[k][j] == name[i];
        assert(is_safe_segment(fields[k]));
        assert(is_name_char(fields[k][j]));
    }
    if name[0] == '/' {
        first_field_is_empty(name);
        assert(is_safe_segment(fields[0]));
    }
    if name.last() == '/' {
        assert(is_safe_segment(fields[fields.len() - 1]));
    }
}

proof fn first_field_is_empty(name: Seq<char>)
    requires
        name.len() > 0,
        name[0] == '/',
    ensures
        text::split_on(name, '/').len() >= 2,
        text::split_on(name, '/')[0].len() == 0,
{
    assert(name =~= Seq::<char>::empty().push('/') + name.drop_first());
    text::split_on_add(Seq::empty(), name.drop_first(), '/');
    text::split_on_nonempty(name.drop_first(), '/');
    text::split_on_plain(Seq::<char>::empty(), '/');
}

/// Every other such name is safe: a word of plain characters that is neither
/// `.` nor `..` and does not begin with `-`, and a safe name followed by a slash
/// and such a word.
pub proof fn plain_words_make_safe_names(word: Seq<char>, name: Seq<char>)
    requires
        word.len() > 0,
        word != seq!['.'],
        word != seq!['.', '.'],
        forall|i: int|
            0 <= i < word.len() ==> {
                let c = #[trigger] word[i];
                ||| 'a' <= c <= 'z'
                ||| 'A' <= c <= 'Z'
                ||| '0' <= c <= '9'
                ||| c == '-'
                ||| c == '_'
                ||| c == '.'
            },
    ensures
        word[0] != '-' ==> is_safe_name(word),
        is_safe_name(name) ==> is_safe_name(name.push('/') + word),
{
    assert(is_safe_segment(word));
    assert(!word.contains('/')) by {
        if word.contains('/') {
            let k = choose|k: int| 0 <= k < word.len() && word[k] == '/';
        }
    }
    text::split_on_plain(word, '/');
    text::split_on_add(name, word, '/');
    let fields = text::split_on(name.push('/') + word, '/');
    if is_safe_name(name) {
        assert forall|i: int| 0 <= i < fields.len() implies is_safe_segment(
            #[trigger] fields[i],
        ) by {
            if i < fields.len() - 1 {
                assert(fields[i] == text::split_on(name, '/')[i]);
            }
        }
    }
}

/// Whether field `k` of the comma-separated line names the bookmark.
pub open spec fn is_field(line: Seq<char>, k: int, name: Seq<char>) -> bool {
    0 <= k < text::split_on(line, ',').len() && text::trim(text::split_on(line, ',')[k]) == name
}

/// The bookmark is one of the comma-separated names of the first line, without
/// the white space around it, and none of those names comes before it; there is
/// none where the first line holds no name.
pub proof fn the_first_bookmark_in_the_alphabet_is_taken(stdout: Seq<char>)
    ensures
        text::lines(stdout).len() == 0 ==> bookmark_in(stdout) is None,
        text::lines(stdout).len() > 0 ==> {
            let line = text::trim(text::lines(stdout)[0]);
            match bookmark_in(stdout) {
                Some(b) => {
                    &&& b.len() > 0
                    &&& exists|k: int| #[trigger] is_field(line, k, b)
                    &&& forall|k: int, name: Seq<char>| #[trigger]
                        is_field(line, k, name) && name.len() > 0 ==> text::lex_le(b, name)
                },
                None => forall|k: int, name: Seq<char>| #[trigger]
                    is_field(line, k, name) ==> name.len() == 0,
            }
        },
{
    if text::lines(stdout).len() > 0 {
        let line = text::trim(text::lines(stdout)[0]);
        let fields = text::split_on(line, ',');
        let names = nonblank_trimmed(fields);
        nonblank_trimmed_facts(fields);
        if names.len() > 0 {
            least_is_first(names);
            let b = least(names);
            let i = choose|i: int| 0 <= i < names.len() && names[i] == b;
            let k = choose|k: int|
                0 <= k < fields.len() && #[trigger] text::trim(fields[k]) == names[i];
            assert(is_field(line, k, b));
            assert forall|k: int, name: Seq<char>| #[trigger]
                is_field(line, k, name) && name.len() > 0 implies text::lex_le(b, name) by {
                assert(names.contains(text::trim(fields[k])));
                let j = choose|j: int| 0 <= j < names.len() && names[j] == name;
                assert(text::lex_le(b, names[j]));
            }
        } else {
            assert forall|k: int, name: Seq<char>| #[trigger] is_field(line, k, name) implies
                name.len() == 0 by {
                if name.len() > 0 {
                    assert(names.contains(text::trim(fields[k])));
                }
            }
        }
    }
}

proof fn nonblank_trimmed_facts(fields: Seq<Seq<char>>)
    ensures
        forall|i: int|
            0 <= i < nonblank_trimmed(fields).len() ==> (#[trigger] nonblank_trimmed(
                fields,
            )[i]).len() > 0 && exists|k: int|
                0 <= k < fields.len() && #[trigger] text::trim(fields[k]) == nonblank_trimmed(
                    fields,
                )[i],
        forall|k: int|
            0 <= k < fields.len() && (#[trigger] text::trim(fields[k])).len() > 0
                ==> nonblank_trimmed(fields).contains(text::trim(fields[k])),
    decreases fields.len(),
{
    let all = nonblank_trimmed(fields);
    if fields.len() > 0 {
        let front_fields = fields.drop_last();
        let front = nonblank_trimmed(front_fields);
        let last = text::trim(fields[fields.len() - 1]);
        nonblank_trimmed_facts(front_fields);
        assert forall|i: int| 0 <= i < all.len() implies (#[trigger] all[i]).len() > 0 && exists|
            k: int,
        |
            0 <= k < fields.len() && #[trigger] text::trim(fields[k]) == all[i] by {
            if i < front.len() {
                assert(all[i] == front[i]);
                let k = choose|k: int|
                    0 <= k < front_fields.len() && #[trigger] text::trim(front_fields[k])
                        == front[i];
                assert(text::trim(fields[k]) == all[i]);
            } else {
                assert(text::trim(fields[fields.len() - 1]) == all[i]);
            }
        }
        assert forall|k: int|
            0 <= k < fields.len() && (#[trigger] text::trim(fields[k])).len() > 0 implies
            all.contains(text::trim(fields[k])) by {
            if k < front_fields.len() {
                assert(text::trim(front_fields[k]).len() > 0);
                assert(front.contains(text::trim(front_fields[k])));
                let i = choose|i: int|
                    0 <= i < front.len() && front[i] == text::trim(front_fields[k]);
                assert(all[i] == front[i]);
            } else {
                assert(all[all.len() - 1] == last);
            }
        }
    }
}

/// The workspace named `default` is the repository itself and the main one;
/// every other workspace is the directory of its name beside the repository,
/// and not the main one. Each has the name and the commit of its entry.
pub proof fn workspaces_lie_beside_the_repository(repo: Seq<u8>, entry: (Seq<char>, Seq<char>))
    ensures
        ({
            let main = entry.0 == seq!['d', 'e', 'f', 'a', 'u', 'l', 't'];
            &&& candidate_of(repo, entry) is Some <==> main || paths::parent_of(repo) is Some
            &&& candidate_of(repo, entry) matches Some(c) ==> {
                &&& c.is_main == main
                &&& main ==> c.path == repo
                &&& !main ==> c.path == paths::join_text_of(paths::parent_of(repo)->0, entry.0)
                &&& c.name == Some(entry.0)
                &&& c.commit_id == Some(entry.1)
                &&& c.repo_path == repo
                &&& c.backend == VcsBackend::Jj
            }
        }),
{
    reveal_strlit("default");
    assert("default"@ =~= seq!['d', 'e', 'f', 'a', 'u', 'l', 't']);
}

/// Where the repository has a parent directory, every entry has its place, in
/// order.
pub proof fn every_entry_has_its_place(repo: Seq<u8>, entries: Seq<(Seq<char>, Seq<char>)>)
    requires
        paths::parent_of(repo) is Some,
    ensures
        candidates_of(repo, entries).len() == entries.len(),
        forall|i: int|
            0 <= i < entries.len() ==> Some(#[trigger] candidates_of(repo, entries)[i])
                == candidate_of(repo, entries[i]),
    decreases entries.len(),
{
    if entries.len() > 0 {
        every_entry_has_its_place(repo, entries.drop_last());
        let front = candidates_of(repo, entries.drop_last());
        let all = candidates_of(repo, entries);
        assert forall|i: int| 0 <= i < entries.len() implies Some(#[trigger] all[i])
            == candidate_of(repo, entries[i]) by {
            if i < front.len() {
                assert(all[i] == front[i]);
                assert(entries.drop_last()[i] == entries[i]);
            }
        }
    }
}

/// Exactly the workspaces whose directories are present are kept, as they are
/// and in order: one more candidate is kept at the end or not at all.
pub proof fn present_workspaces_are_kept(
    candidates: Seq<WorktreeSourceView>,
    present: Seq<bool>,
    next: WorktreeSourceView,
)
    ensures
        candidates.len() < present.len() && present[candidates.len() as int] ==> kept_candidates(
            candidates.push(next),
            present,
        ) == kept_candidates(candidates, present).push(next),
        candidates.len() >= present.len() || !present[candidates.len() as int] ==> kept_candidates(
            candidates.push(next),
            present,
        ) == kept_candidates(candidates, present),
        kept_candidates(Seq::empty(), present).len() == 0,
{
    assert(candidates.push(next).drop_last() =~= candidates);
}

} // verus!
