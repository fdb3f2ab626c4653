//! What the library makes of a git repository that has been read.
use vstd::prelude::*;

use crate::bytes;
use crate::config::RepoConfig;
use crate::paths;
use crate::paths::FilePath;
use crate::state::types::{Worktree, WorktreeStatus, WorktreeView};
use crate::text;
use crate::text::{concat2, string_of_range, to_chars};
use crate::vcs::VcsBackend;

verus! {

// ---------------------------------------------------------------------------
// Worktree paths
// ---------------------------------------------------------------------------

/// What reading the worktrees of a repository came to.
#[derive(Debug)]
pub enum LinkedWorktrees {
    /// The repository cannot be opened.
    Unopened,
    /// Its worktrees cannot be listed.
    Unlisted,
    /// For each linked worktree its path; nothing where its name is not text or
    /// git does not find it.
    Listed(Vec<Option<FilePath>>),
}

/// The linked worktrees that were found, in order.
pub open spec fn found_paths(linked: Seq<Option<FilePath>>) -> Seq<(Seq<u8>, bool)>
    decreases linked.len(),
{
    if linked.len() == 0 {
        Seq::empty()
    } else {
        let front = found_paths(linked.drop_last());
        match linked.last() {
            Some(p) => front.push((p@, false)),
            None => front,
        }
    }
}

/// The paths of a list, each with whether it is the main worktree.
pub open spec fn paths_view(v: Seq<(FilePath, bool)>) -> Seq<(Seq<u8>, bool)> {
    v.map_values(|p: (FilePath, bool)| (p.0@, p.1))
}

/// The paths of the worktrees of a repository, each with whether it is the main
/// one. The configured path comes first and is the main worktree.
pub fn list_worktree_paths(config: &RepoConfig, linked: LinkedWorktrees) -> (r: Result<
    Vec<(FilePath, bool)>,
    String,
>)
    ensures
        match linked {
            LinkedWorktrees::Unopened => r matches Err(e) && e@ == "Failed to open git repo at "@
                + paths::debug_form(config@.path),
            LinkedWorktrees::Unlisted => r matches Err(e) && e@ == "Failed to list worktrees"@,
            LinkedWorktrees::Listed(found) => r matches Ok(all) && paths_view(all@) == seq![
                (config@.path, true),
            ] + found_paths(found@),
        },
{
    let found: Vec<Option<FilePath>> = match linked {
        LinkedWorktrees::Unopened => {
            let shown = paths::debug_path(&config.path);
            return Err(concat2("Failed to open git repo at ", shown.as_str()));
        },
        LinkedWorktrees::Unlisted => {
            return Err("Failed to list worktrees".to_owned());
        },
        LinkedWorktrees::Listed(found) => found,
    };
    let ghost all = found@;
    let ghost mut done: int = 0;
    let mut r: Vec<(FilePath, bool)> = Vec::new();
    r.push((config.path.clone(), true));
    assert(all.take(0) =~= Seq::empty());
    assert(paths_view(r@) =~= seq![(config@.path, true)] + found_paths(all.take(0)));
    for path in it: found
        invariant
            it.seq() == all,
            done == it.index(),
            0 <= done <= all.len(),
            paths_view(r@) == seq![(config@.path, true)] + found_paths(all.take(done)),
    {
        assert(all.take(done + 1).drop_last() =~= all.take(done));
        let ghost before = paths_view(r@);
        if let Some(p) = path {
            let ghost shown = p@;
            r.push((p, false));
            assert(paths_view(r@) =~= before.push((shown, false)));
        }
        assert(paths_view(r@) =~= seq![(config@.path, true)] + found_paths(all.take(done + 1)));
        proof {
            done = done + 1;
        }
    }
    assert(all.take(all.len() as int) =~= all);
    Ok(r)
}

/// A git repository has exactly one main worktree, the configured path, and it
/// comes first.
pub proof fn main_worktree_comes_first(config_path: Seq<u8>, linked: Seq<Option<FilePath>>)
    ensures
        ({
            let all = seq![(config_path, true)] + found_paths(linked);
            all[0] == (config_path, true) && forall|i: int|
                0 < i < all.len() ==> !(#[trigger] all[i]).1
        }),
    decreases linked.len(),
{
    if linked.len() > 0 {
        main_worktree_comes_first(config_path, linked.drop_last());
        let front = seq![(config_path, true)] + found_paths(linked.drop_last());
        let all = seq![(config_path, true)] + found_paths(linked);
        assert forall|i: int| 0 < i < all.len() implies !(#[trigger] all[i]).1 by {
            if i < front.len() {
                assert(all[i] == front[i]);
            }
        }
    }
}

// ---------------------------------------------------------------------------
// Branch
// ---------------------------------------------------------------------------

/// What HEAD of a repository refers to.
#[derive(Debug)]
pub struct Head {
    pub is_branch: bool,
    /// The short name of the reference, where it is text.
    pub shorthand: Option<String>,
    /// The object id that it points at directly.
    pub target: Option<[u8; 20]>,
}

/// The hexadecimal digit of a number below 16, in lower case.
pub open spec fn hex_digit(n: u8) -> char {
    "0123456789abcdef"@[n as int]
}

/// Two hexadecimal digits for each byte.
pub open spec fn hex_of(bytes: Seq<u8>) -> Seq<char> {
    Seq::new(
        2 * bytes.len(),
        |i: int|
            hex_digit(
                if i % 2 == 0 {
                    bytes[i / 2] / 16
                } else {
                    bytes[i / 2] % 16
                },
            ),
    )
}

/// The text of an object id: `git2::Oid::from_bytes`, which accepts any 20
/// bytes, and the `Display` of `git2::Oid`, which writes each byte as two
/// hexadecimal digits in lower case.
#[verifier::external_body]
fn oid_text(bytes: &[u8; 20]) -> (r: String)
    ensures
        r@ == hex_of(bytes@),
{
    git2::Oid::from_bytes(bytes).unwrap().to_string()
}

/// The name of the branch, or the start of the object id where HEAD is
/// detached.
pub open spec fn branch_name_of(head: Option<Head>) -> Option<Seq<char>> {
    match head {
        Some(h) => if h.is_branch {
            text::opt_view(h.shorthand)
        } else {
            match h.target {
                Some(id) => Some(hex_of(id@).take(8)),
                None => None,
            }
        },
        None => None,
    }
}

/// The name of the branch, or the first 8 digits of the object id where HEAD is
/// detached. `head` is missing where HEAD cannot be resolved.
pub fn get_branch_name(head: &Option<Head>) -> (r: Option<String>)
    ensures
        text::opt_view(r) == branch_name_of(*head),
{
    match head {
        Some(h) => if h.is_branch {
            match &h.shorthand {
                Some(s) => Some(s.clone()),
                None => None,
            }
        } else {
            match &h.target {
                Some(id) => {
                    let digits = to_chars(oid_text(id).as_str());
                    assert(digits@.subrange(0, 8) =~= hex_of(id@).take(8));
                    Some(string_of_range(&digits, 0, 8))
                },
                None => None,
            }
        },
        None => None,
    }
}

// ---------------------------------------------------------------------------
// Status
// ---------------------------------------------------------------------------

pub const INDEX_NEW: u32 = 1;

pub const INDEX_MODIFIED: u32 = 2;

pub const INDEX_DELETED: u32 = 4;

pub const INDEX_RENAMED: u32 = 8;

pub const INDEX_TYPECHANGE: u32 = 16;

pub const WT_NEW: u32 = 128;

pub const WT_MODIFIED: u32 = 256;

pub const WT_DELETED: u32 = 512;

pub const WT_TYPECHANGE: u32 = 1024;

pub const WT_RENAMED: u32 = 2048;

/// The status bits of a file that make it an uncommitted change: everything but
/// ignored and conflicted files.
pub const UNCOMMITTED: u32 = INDEX_NEW | INDEX_MODIFIED | INDEX_DELETED | INDEX_RENAMED
    | INDEX_TYPECHANGE | WT_NEW | WT_MODIFIED | WT_DELETED | WT_RENAMED | WT_TYPECHANGE;

/// Whether a status has any of the flags: `git2::Status::intersects` on
/// statuses made from their bits. `git2::Status::from_bits_truncate` drops bits
/// that are no flag of git2, so the flags asked for are all among git2's.
#[verifier::external_body]
fn has_any(status: u32, flags: u32) -> (r: bool)
    requires
        flags & 0xFFFF_3060 == 0,
    ensures
        r == (status & flags != 0),
{
    git2::Status::from_bits_truncate(status).intersects(git2::Status::from_bits_truncate(flags))
}

/// How many of the statuses are uncommitted changes.
pub open spec fn uncommitted_count(statuses: Seq<u32>) -> nat
    decreases statuses.len(),
{
    if statuses.len() == 0 {
        0
    } else {
        uncommitted_count(statuses.drop_last()) + if statuses.last() & UNCOMMITTED != 0 {
            1nat
        } else {
            0
        }
    }
}

/// The two counts in the width in which they are shown.
pub open spec fn narrowed(counts: Option<(usize, usize)>) -> Option<(u32, u32)> {
    match counts {
        Some((ahead, behind)) => Some((ahead as u32, behind as u32)),
        None => None,
    }
}

/// How many commits the branch is ahead of and behind its upstream, where it
/// has one.
pub fn get_ahead_behind(counts: Option<(usize, usize)>) -> (r: Option<(u32, u32)>)
    ensures
        r == narrowed(counts),
{
    match counts {
        Some((ahead, behind)) => Some(
            (#[verifier::truncate] (ahead as u32), #[verifier::truncate] (behind as u32)),
        ),
        None => None,
    }
}

/// The status of a worktree with the given file statuses, ahead and behind by
/// the given counts.
pub open spec fn status_of(statuses: Seq<u32>, counts: Option<(usize, usize)>) -> WorktreeStatus {
    let changes = uncommitted_count(statuses) as u32;
    let (ahead, behind) = match narrowed(counts) {
        Some(both) => both,
        None => (0u32, 0u32),
    };
    WorktreeStatus { uncommitted_changes: changes, ahead, behind, is_dirty: changes > 0 }
}

/// The status of a worktree from its file statuses and from how far it is ahead
/// of and behind its upstream.
pub fn get_worktree_status(statuses: &Vec<u32>, counts: Option<(usize, usize)>) -> (r:
    WorktreeStatus)
    ensures
        r == status_of(statuses@, counts),
{
    let mut n: usize = 0;
    let mut i: usize = 0;
    assert(statuses@.take(0) =~= Seq::empty());
    while i < statuses.len()
        invariant
            i <= statuses.len(),
            n <= i,
            n == uncommitted_count(statuses@.take(i as int)),
        decreases statuses.len() - i,
    {
        assert(statuses@.take(i + 1).drop_last() =~= statuses@.take(i as int));
        assert(UNCOMMITTED & 0xFFFF_3060u32 == 0) by (bit_vector);
        if has_any(statuses[i], UNCOMMITTED) {
            n += 1;
        }
        i += 1;
    }
    assert(statuses@.take(i as int) =~= statuses@);
    let changes: u32 = #[verifier::truncate] (n as u32);
    let (ahead, behind): (u32, u32) = match get_ahead_behind(counts) {
        Some(both) => both,
        None => (0, 0),
    };
    WorktreeStatus { uncommitted_changes: changes, ahead, behind, is_dirty: changes > 0 }
}

// ---------------------------------------------------------------------------
// One worktree
// ---------------------------------------------------------------------------

/// What was read from a worktree that could be opened.
#[derive(Debug)]
pub struct WorktreeReading {
    /// HEAD, where it can be resolved.
    pub head: Option<Head>,
    /// The status bits of its files, where they can be had.
    pub statuses: Option<Vec<u32>>,
    /// How far HEAD is ahead of and behind its upstream, where it has one.
    pub ahead_behind: Option<(usize, usize)>,
}

/// The branch to show: `HEAD` where there is none.
pub open spec fn shown_branch(head: Option<Head>) -> Seq<char> {
    match branch_name_of(head) {
        Some(b) => b,
        None => "HEAD"@,
    }
}

/// The worktree at the path with the given reading.
pub open spec fn worktree_info(
    path: Seq<u8>,
    is_main: bool,
    head: Option<Head>,
    statuses: Seq<u32>,
    counts: Option<(usize, usize)>,
) -> WorktreeView {
    WorktreeView {
        name: match paths::file_name_of(path) {
            Some(n) => bytes::text_of(n),
            None => shown_branch(head),
        },
        path,
        branch: shown_branch(head),
        is_main,
        status: status_of(statuses, counts),
        pr: None,
        backend: VcsBackend::Git,
    }
}

/// The worktree at the path. `reading` is missing where the worktree cannot be
/// opened.
pub fn load_worktree_info(path: FilePath, is_main: bool, reading: Option<WorktreeReading>) -> (r:
    Result<Worktree, String>)
    ensures
        match reading {
            None => r matches Err(e) && e@ == "Failed to open worktree at "@ + paths::debug_form(
                path@,
            ),
            Some(read) => match read.statuses {
                None => r matches Err(e) && e@ == "Failed to get repo statuses"@,
                Some(statuses) => r matches Ok(w) && w@ == worktree_info(
                    path@,
                    is_main,
                    read.head,
                    statuses@,
                    read.ahead_behind,
                ),
            },
        },
{
    let read: WorktreeReading = match reading {
        Some(read) => read,
        None => {
            let shown = paths::debug_path(&path);
            return Err(concat2("Failed to open worktree at ", shown.as_str()));
        },
    };
    let branch: String = match get_branch_name(&read.head) {
        Some(b) => b,
        None => "HEAD".to_owned(),
    };
    let name: String = match paths::file_name(&path) {
        Some(n) => n.to_text(),
        None => branch.clone(),
    };
    let status: WorktreeStatus = match &read.statuses {
        Some(statuses) => get_worktree_status(statuses, read.ahead_behind),
        None => {
            return Err("Failed to get repo statuses".to_owned());
        },
    };
    Ok(Worktree { name, path, branch, is_main, status, pr: None, backend: VcsBackend::Git })
}

/// A worktree is dirty exactly when changes are shown for it, whichever files
/// it holds.
pub proof fn dirty_means_changes(statuses: Seq<u32>, counts: Option<(usize, usize)>)
    ensures
        status_of(statuses, counts).is_dirty <==> status_of(statuses, counts).uncommitted_changes
            > 0,
        counts is None ==> status_of(statuses, counts).ahead == 0 && status_of(
            statuses,
            counts,
        ).behind == 0,
{
}

// ---------------------------------------------------------------------------
// Laws
// ---------------------------------------------------------------------------

/// Whether a file's status says that it is new, modified, deleted, renamed or of
/// another type, in the index or in the working tree.
pub open spec fn is_changed(status: u32) -> bool {
    ||| status & 1 != 0
    ||| status & 2 != 0
    ||| status & 4 != 0
    ||| status & 8 != 0
    ||| status & 16 != 0
    ||| status & 128 != 0
    ||| status & 256 != 0
    ||| status & 512 != 0
    ||| status & 1024 != 0
    ||| status & 2048 != 0
}

/// The places of the changed files in the list.
pub open spec fn changed_files(statuses: Seq<u32>) -> Set<int> {
    Set::new(|i: int| 0 <= i < statuses.len() && is_changed(statuses[i]))
}

proof fn changed_files_are_counted(statuses: Seq<u32>)
    ensures
        changed_files(statuses).finite(),
        uncommitted_count(statuses) == changed_files(statuses).len(),
    decreases statuses.len(),
{
    let all = changed_files(statuses);
    if statuses.len() == 0 {
        assert(all =~= Set::empty());
    } else {
        let n = statuses.len() - 1;
        let front = changed_files(statuses.drop_last());
        let status = statuses[n];
        changed_files_are_counted(statuses.drop_last());
        assert(!front.contains(n));
        assert((status & UNCOMMITTED != 0) == (status & 1 != 0 || status & 2 != 0 || status & 4
            != 0 || status & 8 != 0 || status & 16 != 0 || status & 128 != 0 || status & 256 != 0
            || status & 512 != 0 || status & 1024 != 0 || status & 2048 != 0)) by (bit_vector);
        if is_changed(status) {
            assert(all =~= front.insert(n));
        } else {
            assert(all =~= front);
        }
    }
}

/// Every changed file is counted, once, whichever of the ten kinds of change it
/// has, and no other file is. A worktree is dirty exactly when there is one.
pub proof fn every_change_is_counted(statuses: Seq<u32>, counts: Option<(usize, usize)>)
    requires
        statuses.len() <= u32::MAX,
    ensures
        changed_files(statuses).finite(),
        status_of(statuses, counts).uncommitted_changes == changed_files(statuses).len(),
        status_of(statuses, counts).is_dirty <==> exists|i: int|
            0 <= i < statuses.len() && is_changed(#[trigger] statuses[i]),
{
    let all = changed_files(statuses);
    changed_files_are_counted(statuses);
    uncommitted_count_bound(statuses);
    if exists|i: int| 0 <= i < statuses.len() && is_changed(#[trigger] statuses[i]) {
        let i = choose|i: int| 0 <= i < statuses.len() && is_changed(#[trigger] statuses[i]);
        assert(all.contains(i));
        assert(all.len() > 0) by {
            if all.len() == 0 {
                assert(all =~= Set::empty());
            }
        }
    } else {
        assert(all =~= Set::empty());
    }
}

proof fn uncommitted_count_bound(statuses: Seq<u32>)
    ensures
        uncommitted_count(statuses) <= statuses.len(),
    decreases statuses.len(),
{
    if statuses.len() > 0 {
        uncommitted_count_bound(statuses.drop_last());
    }
}

/// The commits that HEAD and its upstream do not share are shown as they were
/// counted, those of HEAD as ahead and those of the upstream as behind; without
/// an upstream there are none.
pub proof fn commits_are_shown_as_counted(statuses: Seq<u32>, counts: Option<(usize, usize)>)
    ensures
        counts matches Some((ahead, behind)) ==> {
            &&& ahead <= u32::MAX ==> status_of(statuses, counts).ahead == ahead
            &&& behind <= u32::MAX ==> status_of(statuses, counts).behind == behind
        },
        counts is None ==> status_of(statuses, counts).ahead == 0 && status_of(
            statuses,
            counts,
        ).behind == 0,
{
}

/// A worktree is shown with the branch that HEAD is at; with the first eight
/// digits of the object id where HEAD is at no branch; and as `HEAD` where
/// there is neither.
pub proof fn the_branch_is_where_head_is(head: Option<Head>)
    ensures
        head matches Some(h) && h.is_branch && h.shorthand is Some ==> shown_branch(head)
            == head->0.shorthand->0@,
        head matches Some(h) && !h.is_branch && h.target is Some ==> {
            let shown = shown_branch(head);
            &&& shown.len() == 8
            &&& forall|i: int|
                0 <= i < 8 ==> {
                    let byte = head->0.target->0@[i / 2];
                    value_of(#[trigger] shown[i]) == if i % 2 == 0 {
                        byte as int / 16
                    } else {
                        byte as int % 16
                    }
                }
        },
        branch_name_of(head) is None ==> shown_branch(head) == seq!['H', 'E', 'A', 'D'],
        head is None ==> branch_name_of(head) is None,
        head matches Some(h) && h.is_branch && h.shorthand is None ==> branch_name_of(head) is None,
        head matches Some(h) && !h.is_branch && h.target is None ==> branch_name_of(head) is None,
{
    reveal_strlit("HEAD");
    reveal_strlit("0123456789abcdef");
    assert("HEAD"@ =~= seq!['H', 'E', 'A', 'D']);
    if let Some(h) = head {
        if !h.is_branch && h.target is Some {
            let shown = shown_branch(head);
            let id = h.target->0@;
            assert(id.len() == 20);
            assert forall|i: int| 0 <= i < 8 implies value_of(#[trigger] shown[i]) == if i % 2 == 0 {
                id[i / 2] as int / 16
            } else {
                id[i / 2] as int % 16
            } by {
                assert(shown[i] == hex_of(id)[i]);
                hex_digit_value(
                    if i % 2 == 0 {
                        id[i / 2] / 16
                    } else {
                        id[i / 2] % 16
                    },
                );
            }
        }
    }
}

/// The value of a hexadecimal digit in lower case.
pub open spec fn value_of(c: char) -> int {
    if '0' <= c <= '9' {
        c as int - '0' as int
    } else if 'a' <= c <= 'f' {
        c as int - 'a' as int + 10
    } else {
        -1
    }
}

proof fn hex_digit_value(n: u8)
    requires
        n < 16,
    ensures
        value_of(hex_digit(n)) == n,
{
    reveal_strlit("0123456789abcdef");
}

/// A worktree keeps its path and its role, belongs to git, has no badge yet and
/// is named after its directory, or after its branch where the path has no last
/// segment.
pub proof fn worktrees_are_named_after_their_directory(
    path: Seq<u8>,
    is_main: bool,
    head: Option<Head>,
    statuses: Seq<u32>,
    counts: Option<(usize, usize)>,
)
    ensures
        ({
            let w = worktree_info(path, is_main, head, statuses, counts);
            &&& w.path == path
            &&& w.is_main == is_main
            &&& w.backend == VcsBackend::Git
            &&& w.pr is None
            &&& w.branch == shown_branch(head)
            &&& w.status == status_of(statuses, counts)
            &&& paths::file_name_of(path) matches Some(n) ==> w.name == bytes::text_of(n)
            &&& paths::file_name_of(path) is None ==> w.name == w.branch
        }),
{
}

/// Exactly the linked worktrees that git found are listed, each once and none
/// as the main one, in git's order.
pub proof fn found_worktrees_are_listed(linked: Seq<Option<FilePath>>, more: Seq<Option<FilePath>>)
    ensures
        found_paths(linked + more) == found_paths(linked) + found_paths(more),
        linked.len() == 1 && linked[0] is Some ==> found_paths(linked) == seq![
            (linked[0]->0@, false),
        ],
        linked.len() == 1 && linked[0] is None ==> found_paths(linked).len() == 0,
    decreases more.len(),
{
    if linked.len() == 1 {
        assert(linked.drop_last() =~= Seq::empty());
        assert(found_paths(linked.drop_last()) =~= Seq::empty());
        if linked[0] is Some {
            assert(found_paths(linked) =~= seq![(linked[0]->0@, false)]);
        }
    }
    if more.len() == 0 {
        assert(linked + more =~= linked);
        assert(found_paths(linked) + found_paths(more) =~= found_paths(linked));
    } else {
        assert((linked + more).drop_last() =~= linked + more.drop_last());
        found_worktrees_are_listed(linked, more.drop_last());
        assert(found_paths(linked + more) =~= found_paths(linked) + found_paths(more));
    }
}

} // verus!
