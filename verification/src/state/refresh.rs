//! Refreshing: how what was read becomes events.
use vstd::prelude::*;

use crate::config::{RepoConfig, RepoConfigView};
use crate::events::{AppEvent, AppEventView};
use crate::github::pr;
use crate::github::pr::PrInfo;
use crate::paths::FilePath;
use crate::state::types;
use crate::state::types::{Repository, RepositoryView, Worktree, WorktreeView};
use crate::text;
use crate::text::str_le;
use crate::vcs;
use crate::vcs::{detect_backend, needs_sequential_loading, CreatePlan, VcsBackend, WorktreeSource};

verus! {

// ---------------------------------------------------------------------------
// Display order
// ---------------------------------------------------------------------------

/// Whether `a` may stand before `b`: the main worktree first, the rest by name.
pub open spec fn may_precede(a: WorktreeView, b: WorktreeView) -> bool {
    if a.is_main == b.is_main {
        text::lex_le(a.name, b.name)
    } else {
        a.is_main
    }
}

/// Whether two worktrees have the same place in the order.
pub open spec fn same_rank(a: WorktreeView, b: WorktreeView) -> bool {
    a.is_main == b.is_main && a.name == b.name
}

/// Whether the worktrees are in display order.
pub open spec fn ordered(s: Seq<WorktreeView>) -> bool {
    forall|i: int, j: int| 0 <= i < j < s.len() ==> may_precede(#[trigger] s[i], #[trigger] s[j])
}

/// The worktrees with the same place in the order as `w`.
pub open spec fn of_rank(s: Seq<WorktreeView>, w: WorktreeView) -> Seq<WorktreeView>
    decreases s.len(),
{
    if s.len() == 0 {
        Seq::empty()
    } else if same_rank(s.last(), w) {
        of_rank(s.drop_last(), w).push(s.last())
    } else {
        of_rank(s.drop_last(), w)
    }
}

/// Whether `r` is `s` in display order: ordered, with the worktrees of each
/// place as they were in `s`.
pub open spec fn is_arrangement(r: Seq<WorktreeView>, s: Seq<WorktreeView>) -> bool {
    &&& ordered(r)
    &&& forall|w: WorktreeView| #[trigger] of_rank(r, w) == of_rank(s, w)
}

/// Whether `a` may stand before `b`.
fn goes_before(a: &Worktree, b: &Worktree) -> (r: bool)
    ensures
        r == may_precede(a@, b@),
{
    if a.is_main == b.is_main {
        str_le(a.name.as_str(), b.name.as_str())
    } else {
        a.is_main
    }
}

/// The worktrees in display order: the main one first, then the rest by name.
/// Worktrees that the order does not tell apart stay as they were.
pub fn sort_worktrees(worktrees: Vec<Worktree>) -> (r: Vec<Worktree>)
    ensures
        is_arrangement(types::worktrees_view(r@), types::worktrees_view(worktrees@)),
{
    let ghost all = types::worktrees_view(worktrees@);
    let ghost mut done: int = 0;
    let mut r: Vec<Worktree> = Vec::new();
    assert(types::worktrees_view(r@) =~= all.take(0));
    for w in it: worktrees
        invariant
            types::worktrees_view(it.seq()) == all,
            done == it.index(),
            0 <= done <= all.len(),
            is_arrangement(types::worktrees_view(r@), all.take(done)),
    {
        let ghost before = types::worktrees_view(r@);
        let ghost this = w@;
        assert(this == all[done]);
        let mut p: usize = r.len();
        while p > 0 && !goes_before(&r[p - 1], &w)
            invariant
                p <= r.len(),
                before == types::worktrees_view(r@),
                this == w@,
                forall|i: int|
                    p <= i < before.len() ==> !may_precede(#[trigger] before[i], this),
            decreases p,
        {
            p -= 1;
        }
        r.insert(p, w);
        assert(types::worktrees_view(r@) =~= before.insert(p as int, this));
        assert(p > 0 ==> may_precede(before[p - 1], this));
        proof {
            insert_keeps_arrangement(before, all.take(done), p as int, this);
            assert(all.take(done + 1) =~= all.take(done).push(this));
            done = done + 1;
        }
    }
    assert(all.take(all.len() as int) =~= all);
    r
}

/// Inserting a worktree behind all that may precede it keeps the order.
proof fn insert_keeps_arrangement(
    r: Seq<WorktreeView>,
    s: Seq<WorktreeView>,
    p: int,
    w: WorktreeView,
)
    requires
        is_arrangement(r, s),
        0 <= p <= r.len(),
        p > 0 ==> may_precede(r[p - 1], w),
        forall|i: int| p <= i < r.len() ==> !may_precede(#[trigger] r[i], w),
    ensures
        is_arrangement(r.insert(p, w), s.push(w)),
{
    let t = r.insert(p, w);
    assert forall|i: int, j: int| 0 <= i < j < t.len() implies may_precede(
        #[trigger] t[i],
        #[trigger] t[j],
    ) by {
        if j < p {
            assert(may_precede(r[i], r[j]));
        } else if j == p {
            if i < p - 1 {
                assert(may_precede(r[i], r[p - 1]));
                may_precede_transitive(r[i], r[p - 1], w);
            }
        } else if i == p {
            may_precede_total(r[j - 1], w);
        } else if i < p {
            assert(may_precede(r[i], r[j - 1]));
        } else {
            assert(may_precede(r[i - 1], r[j - 1]));
        }
    }
    assert forall|k: WorktreeView| #[trigger] of_rank(t, k) == of_rank(s.push(w), k) by {
        assert(s.push(w).drop_last() =~= s);
        assert(of_rank(r, k) == of_rank(s, k));
        if same_rank(w, k) {
            assert forall|i: int| p <= i < r.len() implies !same_rank(#[trigger] r[i], k) by {
                if same_rank(r[i], k) {
                    text::lex_le_reflexive(w.name);
                    assert(may_precede(r[i], w));
                }
            }
        }
        of_rank_of_insert(r, p, w, k);
    }
}

/// Inserting behind every worktree of its place appends to that place.
proof fn of_rank_of_insert(s: Seq<WorktreeView>, p: int, w: WorktreeView, k: WorktreeView)
    requires
        0 <= p <= s.len(),
        same_rank(w, k) ==> forall|i: int| p <= i < s.len() ==> !same_rank(#[trigger] s[i], k),
    ensures
        of_rank(s.insert(p, w), k) == if same_rank(w, k) {
            of_rank(s, k).push(w)
        } else {
            of_rank(s, k)
        },
    decreases s.len(),
{
    let t = s.insert(p, w);
    if p == s.len() {
        assert(t.drop_last() =~= s);
    } else {
        let front = s.drop_last();
        assert(t.drop_last() =~= front.insert(p, w));
        assert(t.last() == s.last());
        if same_rank(w, k) {
            assert(!same_rank(s[s.len() - 1], k));
            assert forall|i: int| p <= i < front.len() implies !same_rank(
                #[trigger] front[i],
                k,
            ) by {
                assert(front[i] == s[i]);
            }
        }
        of_rank_of_insert(front, p, w, k);
    }
}

/// The display order is total.
pub proof fn may_precede_total(a: WorktreeView, b: WorktreeView)
    ensures
        may_precede(a, b) || may_precede(b, a),
{
    text::lex_le_total(a.name, b.name);
}

/// The display order is transitive.
pub proof fn may_precede_transitive(a: WorktreeView, b: WorktreeView, c: WorktreeView)
    requires
        may_precede(a, b),
        may_precede(b, c),
    ensures
        may_precede(a, c),
{
    if a.is_main == b.is_main && b.is_main == c.is_main {
        text::lex_le_transitive(a.name, b.name, c.name);
    }
}

/// A place that is taken is taken by some worktree.
proof fn of_rank_witness(s: Seq<WorktreeView>, w: WorktreeView)
    ensures
        of_rank(s, w).len() > 0 <==> exists|i: int|
            0 <= i < s.len() && same_rank(#[trigger] s[i], w),
    decreases s.len(),
{
    if s.len() > 0 {
        let front = s.drop_last();
        of_rank_witness(front, w);
        if same_rank(s.last(), w) {
            assert(same_rank(s[s.len() - 1], w));
        } else {
            if of_rank(s, w).len() > 0 {
                let i = choose|i: int| 0 <= i < front.len() && same_rank(#[trigger] front[i], w);
                assert(same_rank(s[i], w));
            }
            if exists|i: int| 0 <= i < s.len() && same_rank(#[trigger] s[i], w) {
                let i = choose|i: int| 0 <= i < s.len() && same_rank(#[trigger] s[i], w);
                assert(same_rank(front[i], w));
            }
        }
    }
}

/// The last worktree of an ordered list stands behind every other of which the
/// list has the same places.
proof fn last_is_behind(a: Seq<WorktreeView>, b: Seq<WorktreeView>)
    requires
        ordered(b),
        a.len() > 0,
        b.len() > 0,
        forall|w: WorktreeView| #[trigger] of_rank(a, w) == of_rank(b, w),
    ensures
        may_precede(a.last(), b.last()),
{
    let x = a.last();
    assert(same_rank(a[a.len() - 1], x));
    of_rank_witness(a, x);
    assert(of_rank(a, x) == of_rank(b, x));
    of_rank_witness(b, x);
    let i = choose|i: int| 0 <= i < b.len() && same_rank(#[trigger] b[i], x);
    text::lex_le_reflexive(x.name);
    if i < b.len() - 1 {
        assert(may_precede(b[i], b[b.len() - 1]));
    }
}

/// There is only one way to put worktrees in display order.
pub proof fn arrangement_is_unique(
    a: Seq<WorktreeView>,
    b: Seq<WorktreeView>,
    s: Seq<WorktreeView>,
)
    requires
        is_arrangement(a, s),
        is_arrangement(b, s),
    ensures
        a == b,
{
    assert forall|w: WorktreeView| #[trigger] of_rank(a, w) == of_rank(b, w) by {
        assert(of_rank(b, w) == of_rank(s, w));
    }
    equal_places_are_equal(a, b);
}

/// Two ordered lists with the same worktrees at each place are equal.
proof fn equal_places_are_equal(a: Seq<WorktreeView>, b: Seq<WorktreeView>)
    requires
        ordered(a),
        ordered(b),
        forall|w: WorktreeView| #[trigger] of_rank(a, w) == of_rank(b, w),
    ensures
        a == b,
    decreases a.len(),
{
    if a.len() == 0 {
        if b.len() > 0 {
            assert(of_rank(a, b.last()) == of_rank(b, b.last()));
        }
        assert(a =~= b);
    } else {
        let x = a.last();
        assert(of_rank(a, x) == of_rank(b, x));
        assert(b.len() > 0);
        let y = b.last();
        last_is_behind(a, b);
        assert forall|w: WorktreeView| #[trigger] of_rank(b, w) == of_rank(a, w) by {
            assert(of_rank(a, w) == of_rank(b, w));
        }
        last_is_behind(b, a);
        text::lex_le_antisymmetric(x.name, y.name);
        assert(same_rank(x, y));
        assert(of_rank(a, x).last() == x);
        assert(of_rank(b, x).last() == y);
        let fa = a.drop_last();
        let fb = b.drop_last();
        assert forall|w: WorktreeView| #[trigger] of_rank(fa, w) == of_rank(fb, w) by {
            assert(of_rank(a, w) == of_rank(b, w));
            if same_rank(x, w) {
                assert(of_rank(fa, w) =~= of_rank(a, w).drop_last());
                assert(of_rank(fb, w) =~= of_rank(b, w).drop_last());
            }
        }
        assert forall|i: int, j: int| 0 <= i < j < fa.len() implies may_precede(
            #[trigger] fa[i],
            #[trigger] fa[j],
        ) by {
            assert(may_precede(a[i], a[j]));
        }
        assert forall|i: int, j: int| 0 <= i < j < fb.len() implies may_precede(
            #[trigger] fb[i],
            #[trigger] fb[j],
        ) by {
            assert(may_precede(b[i], b[j]));
        }
        equal_places_are_equal(fa, fb);
        assert(a =~= fa.push(x));
        assert(b =~= fb.push(y));
    }
}

/// A worktree occurs at its place as often as in the whole list.
proof fn of_rank_count(s: Seq<WorktreeView>, w: WorktreeView)
    ensures
        s.to_multiset().count(w) == of_rank(s, w).to_multiset().count(w),
    decreases s.len(),
{
    broadcast use vstd::seq_lib::group_to_multiset_ensures;

    if s.len() > 0 {
        let front = s.drop_last();
        of_rank_count(front, w);
        assert(s =~= front.push(s.last()));
        if same_rank(s.last(), w) {
            assert(of_rank(s, w) == of_rank(front, w).push(s.last()));
        }
    }
}

/// Putting worktrees in display order neither loses nor adds one.
pub proof fn sorting_keeps_every_worktree(r: Seq<WorktreeView>, s: Seq<WorktreeView>)
    requires
        is_arrangement(r, s),
    ensures
        r.to_multiset() == s.to_multiset(),
        r.len() == s.len(),
{
    broadcast use vstd::seq_lib::group_to_multiset_ensures;

    assert forall|w: WorktreeView| r.to_multiset().count(w) == s.to_multiset().count(w) by {
        of_rank_count(r, w);
        of_rank_count(s, w);
        assert(of_rank(r, w) == of_rank(s, w));
    }
    assert(r.to_multiset() =~= s.to_multiset());
    r.to_multiset_ensures();
    s.to_multiset_ensures();
}

/// Where a repository has a main worktree, a main worktree is shown first.
pub proof fn main_worktree_is_shown_first(r: Seq<WorktreeView>, s: Seq<WorktreeView>, i: int)
    requires
        is_arrangement(r, s),
        0 <= i < s.len(),
        s[i].is_main,
    ensures
        r.len() > 0,
        r[0].is_main,
{
    assert(same_rank(s[i], s[i]));
    of_rank_witness(s, s[i]);
    assert(of_rank(r, s[i]) == of_rank(s, s[i]));
    of_rank_witness(r, s[i]);
    let k = choose|k: int| 0 <= k < r.len() && same_rank(#[trigger] r[k], s[i]);
    if k > 0 {
        assert(may_precede(r[0], r[k]));
    }
}

// ---------------------------------------------------------------------------
// One repository
// ---------------------------------------------------------------------------

/// The worktrees that could be loaded, in order.
pub open spec fn loaded_worktrees(results: Seq<Result<Worktree, String>>) -> Seq<WorktreeView>
    decreases results.len(),
{
    if results.len() == 0 {
        Seq::empty()
    } else {
        let front = loaded_worktrees(results.drop_last());
        match results.last() {
            Ok(w) => front.push(w@),
            Err(_) => front,
        }
    }
}

/// The worktrees that could be loaded, in order.
fn keep_loaded(results: Vec<Result<Worktree, String>>) -> (r: Vec<Worktree>)
    ensures
        types::worktrees_view(r@) == loaded_worktrees(results@),
{
    let ghost all = results@;
    let ghost mut done: int = 0;
    let mut r: Vec<Worktree> = Vec::new();
    assert(all.take(0) =~= Seq::empty());
    assert(types::worktrees_view(r@) =~= Seq::empty());
    for result in it: results
        invariant
            it.seq() == all,
            done == it.index(),
            0 <= done <= all.len(),
            types::worktrees_view(r@) == loaded_worktrees(all.take(done)),
    {
        assert(all.take(done + 1).drop_last() =~= all.take(done));
        let ghost before = types::worktrees_view(r@);
        if let Ok(w) = result {
            let ghost this = w@;
            r.push(w);
            assert(types::worktrees_view(r@) =~= before.push(this));
        }
        proof {
            done = done + 1;
        }
    }
    assert(all.take(all.len() as int) =~= all);
    r
}

/// What comes after listing the worktrees of a repository.
#[derive(Debug)]
pub enum ListedRepo {
    /// Nothing; the event tells the user why.
    Failed(AppEvent),
    /// Load each of the sources, one after the other or all at once.
    Load { sources: Vec<WorktreeSource>, sequential: bool },
}

/// What comes after listing the worktrees of a repository. Where jj owns any of
/// them they are loaded one after the other.
pub fn listed(listing: Result<Vec<WorktreeSource>, String>) -> (r: ListedRepo)
    ensures
        match (listing, r) {
            (Ok(found), ListedRepo::Load { sources, sequential }) => sources == found
                && sequential == exists|i: int|
                0 <= i < found@.len() && (#[trigger] found@[i]).backend == VcsBackend::Jj,
            (Err(e), ListedRepo::Failed(event)) => event@ == AppEventView::RefreshError(e@),
            _ => false,
        },
{
    match listing {
        Ok(sources) => {
            let sequential: bool = needs_sequential_loading(sources.as_slice());
            ListedRepo::Load { sources, sequential }
        },
        Err(e) => ListedRepo::Failed(AppEvent::RefreshError(e)),
    }
}

/// Whether `repo` is what a refresh shows of a repository: its worktrees that
/// could be loaded, in display order, and the backend for new ones.
pub open spec fn is_loaded_repo(
    repo: RepositoryView,
    config: RepoConfigView,
    backend: VcsBackend,
    results: Seq<Result<Worktree, String>>,
) -> bool {
    &&& repo == (RepositoryView {
        backend,
        worktrees: repo.worktrees,
        ..types::empty_repository(config)
    })
    &&& is_arrangement(repo.worktrees, loaded_worktrees(results))
}

/// The event of a repository whose worktrees have been loaded. Those that could
/// not be loaded are left out.
pub fn loaded(config: RepoConfig, dot_jj_exists: bool, results: Vec<Result<Worktree, String>>) -> (r:
    AppEvent)
    ensures
        r@ matches AppEventView::RepoLoaded(repo) && is_loaded_repo(
            repo,
            config@,
            if dot_jj_exists {
                VcsBackend::Jj
            } else {
                VcsBackend::Git
            },
            results@,
        ),
{
    let mut repo = Repository::new(config);
    repo.backend = detect_backend(dot_jj_exists);
    repo.worktrees = sort_worktrees(keep_loaded(results));
    AppEvent::RepoLoaded(repo)
}

/// The event of the pull requests of a repository; a failure counts as none.
pub fn fetched(repo_path: FilePath, prs: Result<Vec<PrInfo>, String>) -> (r: AppEvent)
    ensures
        r@ == (AppEventView::PrsFetched {
            repo_path: repo_path@,
            prs: match prs {
                Ok(found) => pr::infos_view(found@),
                Err(_) => Seq::empty(),
            },
        }),
{
    let found: Vec<PrInfo> = match prs {
        Ok(found) => found,
        Err(_) => {
            let none: Vec<PrInfo> = Vec::new();
            assert(pr::infos_view(none@) =~= Seq::empty());
            none
        },
    };
    AppEvent::PrsFetched { repo_path, prs: found }
}

// ---------------------------------------------------------------------------
// Requests of the user
// ---------------------------------------------------------------------------

/// How to create a worktree in a repository, or the event that tells the user
/// why it is refused. The repository's own backend creates it.
pub fn create_worktree(dot_jj_exists: bool, repo_path: &FilePath, name: &str) -> (r: Result<
    CreatePlan,
    AppEvent,
>)
    ensures
        match vcs::creation_plan(
            if dot_jj_exists {
                VcsBackend::Jj
            } else {
                VcsBackend::Git
            },
            repo_path@,
            name@,
        ) {
            Ok(plan) => r matches Ok(p) && p@ == plan,
            Err(e) => r matches Err(event) && event@ == AppEventView::WorktreeCreateError(e),
        },
{
    match vcs::create_workspace(detect_backend(dot_jj_exists), repo_path, name) {
        Ok(plan) => Ok(plan),
        Err(e) => Err(AppEvent::WorktreeCreateError(e)),
    }
}

/// The event of a worktree that was or was not created at the path given back.
pub fn worktree_created(repo_path: FilePath, outcome: Result<FilePath, String>) -> (r: AppEvent)
    ensures
        r@ == match outcome {
            Ok(path) => AppEventView::WorktreeCreated {
                repo_path: repo_path@,
                worktree_path: path@,
            },
            Err(e) => AppEventView::WorktreeCreateError(e@),
        },
{
    match outcome {
        Ok(worktree_path) => AppEvent::WorktreeCreated { repo_path, worktree_path },
        Err(e) => AppEvent::WorktreeCreateError(e),
    }
}

/// The event of a worktree that was or was not removed.
pub fn worktree_removed(repo_path: FilePath, worktree_path: FilePath, outcome: Result<(), String>) -> (r:
    AppEvent)
    ensures
        r@ == match outcome {
            Ok(_) => AppEventView::WorktreeDeleted {
                repo_path: repo_path@,
                worktree_path: worktree_path@,
            },
            Err(e) => AppEventView::WorktreeDeleteError(e@),
        },
{
    match outcome {
        Ok(_) => AppEvent::WorktreeDeleted { repo_path, worktree_path },
        Err(e) => AppEvent::WorktreeDeleteError(e),
    }
}

/// The event of a path that the user wants to track and that was or was not
/// found usable, with either backend.
pub fn repo_validated(path: FilePath, outcome: Result<VcsBackend, String>) -> (r: AppEvent)
    ensures
        r@ == match outcome {
            Ok(_) => AppEventView::RepoAdded(path@),
            Err(e) => AppEventView::RepoAddError(e@),
        },
{
    match outcome {
        Ok(_) => AppEvent::RepoAdded(path),
        Err(e) => AppEvent::RepoAddError(e),
    }
}

/// Worktrees are shown with the main ones first, and each of the two groups by
/// name.
pub proof fn worktrees_are_shown_in_order(
    r: Seq<WorktreeView>,
    s: Seq<WorktreeView>,
    i: int,
    j: int,
)
    requires
        is_arrangement(r, s),
        0 <= i < j < r.len(),
    ensures
        r[j].is_main ==> r[i].is_main,
        r[i].is_main == r[j].is_main ==> text::lex_le(r[i].name, r[j].name),
{
    assert(may_precede(r[i], r[j]));
}

/// Exactly the worktrees that could be loaded are shown: one more result adds
/// its worktree, or nothing where it failed.
pub proof fn loaded_worktrees_are_kept(
    results: Seq<Result<Worktree, String>>,
    next: Result<Worktree, String>,
)
    ensures
        loaded_worktrees(Seq::empty()).len() == 0,
        next matches Ok(w) ==> loaded_worktrees(results.push(next)) == loaded_worktrees(
            results,
        ).push(w@),
        next is Err ==> loaded_worktrees(results.push(next)) == loaded_worktrees(results),
{
    assert(results.push(next).drop_last() =~= results);
}

/// A loaded repository is the configured one, expanded, with the given backend
/// for new worktrees and every worktree that could be loaded.
pub proof fn loaded_repositories_hold_their_worktrees(
    repo: RepositoryView,
    config: RepoConfigView,
    backend: VcsBackend,
    results: Seq<Result<Worktree, String>>,
)
    requires
        is_loaded_repo(repo, config, backend, results),
    ensures
        repo.config == config,
        repo.backend == backend,
        repo.is_expanded,
        repo.display_name == types::display_name_of(config),
        repo.worktrees.to_multiset() == loaded_worktrees(results).to_multiset(),
{
    sorting_keeps_every_worktree(repo.worktrees, loaded_worktrees(results));
}

} // verus!
