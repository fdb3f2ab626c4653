//! How the selection moves through the worktree list.
use vstd::prelude::*;

use crate::state::types;
use crate::state::types::{AppStateView, FlatListItem, RepositoryView};

verus! {

/// Whether worktree `w` of repository `r` has a row in the list.
pub open spec fn is_shown(repos: Seq<RepositoryView>, r: int, w: int) -> bool {
    0 <= r < repos.len() && repos[r].is_expanded && 0 <= w < repos[r].worktrees.len()
}

/// Whether the numbers of repositories and worktrees are machine-sized.
pub open spec fn fits(repos: Seq<RepositoryView>) -> bool {
    &&& repos.len() <= usize::MAX
    &&& forall|r: int|
        0 <= r < repos.len() ==> (#[trigger] repos[r]).worktrees.len() <= usize::MAX
}

/// Whether the list shows any worktree.
pub open spec fn shows_any(repos: Seq<RepositoryView>) -> bool {
    exists|r: int, w: int| is_shown(repos, r, w)
}

/// How many rows the first `n` repositories take.
pub open spec fn rows_before(repos: Seq<RepositoryView>, n: int) -> int
    decreases n,
{
    if n <= 0 {
        0
    } else {
        rows_before(repos, n - 1) + 1 + (if repos[n - 1].is_expanded {
            repos[n - 1].worktrees.len() as int
        } else {
            0
        })
    }
}

proof fn rows_before_prefix(repos: Seq<RepositoryView>, n: int)
    requires
        0 <= n < repos.len(),
    ensures
        rows_before(repos.drop_last(), n) == rows_before(repos, n),
    decreases n,
{
    if n > 0 {
        rows_before_prefix(repos, n - 1);
    }
}

proof fn rows_before_monotonic(repos: Seq<RepositoryView>, a: int, b: int)
    requires
        0 <= a <= b <= repos.len(),
    ensures
        rows_before(repos, a) <= rows_before(repos, b),
    decreases b,
{
    if a < b {
        rows_before_monotonic(repos, a, b - 1);
    }
}

/// The list holds a row for each shown worktree and no other worktree rows:
/// row `i` is worktree `w` of repository `r` exactly when that worktree is
/// shown and `i` is where its repository starts, plus one, plus `w`.
pub proof fn rows_are_the_shown_worktrees(
    repos: Seq<RepositoryView>,
    sel_repo: usize,
    sel_worktree: usize,
)
    requires
        fits(repos),
    ensures
        types::flat_rows(repos, sel_repo, sel_worktree).len() == rows_before(
            repos,
            repos.len() as int,
        ),
        forall|i: int, r: usize, w: usize|
            0 <= i < rows_before(repos, repos.len() as int) ==> (#[trigger] types::is_row_of(
                types::flat_rows(repos, sel_repo, sel_worktree)[i],
                r,
                w,
            ) <==> is_shown(repos, r as int, w as int) && i == rows_before(repos, r as int) + 1
                + w),
    decreases repos.len(),
{
    let rows = types::flat_rows(repos, sel_repo, sel_worktree);
    if repos.len() > 0 {
        let n = repos.len() - 1;
        let front = repos.drop_last();
        let last = repos.last();
        let before = types::flat_rows(front, sel_repo, sel_worktree);
        let mine = types::repo_rows(
            n as nat,
            last.worktrees.len(),
            last.is_expanded,
            sel_repo,
            sel_worktree,
        );
        assert forall|r: int| 0 <= r < front.len() implies (#[trigger] front[r]).worktrees.len()
            <= usize::MAX by {
            assert(front[r] == repos[r]);
        }
        rows_are_the_shown_worktrees(front, sel_repo, sel_worktree);
        rows_before_prefix(repos, n);
        assert(repos[n] == last);
        assert(last.worktrees.len() <= usize::MAX);
        assert(rows == before + mine);
        assert forall|i: int, r: usize, w: usize| 0 <= i < rows.len() implies (
        #[trigger] types::is_row_of(rows[i], r, w) <==> is_shown(repos, r as int, w as int) && i
            == rows_before(repos, r as int) + 1 + w) by {
            if i < before.len() {
                assert(rows[i] == before[i]);
                assert(types::is_row_of(before[i], r, w) <==> is_shown(front, r as int, w as int)
                    && i == rows_before(front, r as int) + 1 + w);
                if (r as int) < n {
                    rows_before_prefix(repos, r as int);
                    assert(front[r as int] == repos[r as int]);
                } else if is_shown(repos, r as int, w as int) {
                    assert(r as int == n);
                }
            } else {
                let j = i - before.len();
                assert(rows[i] == mine[j]);
                if is_shown(repos, r as int, w as int) && (r as int) < n {
                    rows_before_monotonic(repos, r + 1, n);
                }
            }
        }
    }
}

proof fn next_row_facts(rows: Seq<FlatListItem>, from: int)
    requires
        0 <= from,
    ensures
        ({
            let n = types::next_worktree_row(rows, from);
            &&& n <= rows.len()
            &&& n < rows.len() ==> from <= n && types::is_worktree_row(rows[n])
            &&& forall|k: int| from <= k < n ==> !types::is_worktree_row(#[trigger] rows[k])
        }),
    decreases rows.len() - from,
{
    if from < rows.len() && !types::is_worktree_row(rows[from]) {
        next_row_facts(rows, from + 1);
    }
}

proof fn previous_row_facts(rows: Seq<FlatListItem>, before: int)
    requires
        before <= rows.len(),
    ensures
        ({
            let p = types::previous_worktree_row(rows, before);
            &&& -1 <= p
            &&& p >= 0 ==> p < before && types::is_worktree_row(rows[p])
            &&& forall|k: int| p < k < before ==> !types::is_worktree_row(#[trigger] rows[k])
        }),
    decreases before,
{
    if before > 0 && !types::is_worktree_row(rows[before - 1]) {
        previous_row_facts(rows, before - 1);
    }
}

proof fn row_search_facts(rows: Seq<FlatListItem>, from: int, r: usize, w: usize)
    requires
        0 <= from <= rows.len(),
    ensures
        ({
            let n = types::row_of_from(rows, from, r, w);
            &&& from <= n <= rows.len()
            &&& n < rows.len() ==> types::is_row_of(rows[n], r, w)
            &&& forall|k: int| from <= k < n ==> !types::is_row_of(#[trigger] rows[k], r, w)
        }),
    decreases rows.len() - from,
{
    if from < rows.len() && !types::is_row_of(rows[from], r, w) {
        row_search_facts(rows, from + 1, r, w);
    }
}

/// A selection that the list shows is at the row of its worktree: behind the rows
/// of the repositories before it and its repository's own.
pub proof fn current_row_facts(s: AppStateView)
    requires
        fits(s.repos),
        is_shown(s.repos, s.selected_repo_idx as int, s.selected_worktree_idx as int),
    ensures
        s.current_row() == rows_before(s.repos, s.selected_repo_idx as int) + 1
            + s.selected_worktree_idx,
        0 <= s.current_row() < s.rows().len(),
        types::is_row_of(
            s.rows()[s.current_row()],
            s.selected_repo_idx,
            s.selected_worktree_idx,
        ),
{
    let r = s.selected_repo_idx;
    let w = s.selected_worktree_idx;
    let rows = s.rows();
    rows_are_the_shown_worktrees(s.repos, r, w);
    row_search_facts(rows, 0, r, w);
    let i = rows_before(s.repos, r as int) + 1 + w;
    rows_before_monotonic(s.repos, r + 1, s.repos.len() as int);
    rows_before_nonnegative(s.repos, r as int);
    assert(types::is_row_of(rows[i], r, w));
}

proof fn rows_before_nonnegative(repos: Seq<RepositoryView>, n: int)
    ensures
        rows_before(repos, n) >= 0,
    decreases n,
{
    if n > 0 {
        rows_before_nonnegative(repos, n - 1);
    }
}

/// Selecting another shown worktree leaves the worktree rows where they are.
proof fn rows_keep_their_worktrees(s: AppStateView, t: AppStateView)
    requires
        fits(s.repos),
        s.repos == t.repos,
    ensures
        s.rows().len() == t.rows().len(),
        forall|i: int, r: usize, w: usize|
            0 <= i < s.rows().len() ==> (#[trigger] types::is_row_of(s.rows()[i], r, w)
                == types::is_row_of(t.rows()[i], r, w)),
        forall|i: int|
            0 <= i < s.rows().len() ==> (types::is_worktree_row(#[trigger] s.rows()[i])
                == types::is_worktree_row(t.rows()[i])),
{
    rows_are_the_shown_worktrees(s.repos, s.selected_repo_idx, s.selected_worktree_idx);
    rows_are_the_shown_worktrees(t.repos, t.selected_repo_idx, t.selected_worktree_idx);
    assert forall|i: int| 0 <= i < s.rows().len() implies types::is_worktree_row(
        #[trigger] s.rows()[i],
    ) == types::is_worktree_row(t.rows()[i]) by {
        if let FlatListItem::Worktree { repo_idx, worktree_idx, .. } = s.rows()[i] {
            assert(types::is_row_of(s.rows()[i], repo_idx, worktree_idx));
            assert(types::is_row_of(t.rows()[i], repo_idx, worktree_idx));
        }
        if let FlatListItem::Worktree { repo_idx, worktree_idx, .. } = t.rows()[i] {
            assert(types::is_row_of(t.rows()[i], repo_idx, worktree_idx));
            assert(types::is_row_of(s.rows()[i], repo_idx, worktree_idx));
        }
    }
}

/// Where the list shows a worktree, moving lands on a shown worktree; where it
/// shows none, moving changes nothing.
pub proof fn moving_lands_on_a_shown_worktree(s: AppStateView)
    requires
        fits(s.repos),
    ensures
        shows_any(s.repos) ==> is_shown(
            s.repos,
            s.moved_down().selected_repo_idx as int,
            s.moved_down().selected_worktree_idx as int,
        ),
        shows_any(s.repos) ==> is_shown(
            s.repos,
            s.moved_up().selected_repo_idx as int,
            s.moved_up().selected_worktree_idx as int,
        ),
        !shows_any(s.repos) ==> s.moved_down() == s && s.moved_up() == s,
{
    let rows = s.rows();
    rows_are_the_shown_worktrees(s.repos, s.selected_repo_idx, s.selected_worktree_idx);
    row_search_facts(rows, 0, s.selected_repo_idx, s.selected_worktree_idx);
    next_row_facts(rows, 0);
    next_row_facts(rows, s.current_row() + 1);
    previous_row_facts(rows, rows.len() as int);
    previous_row_facts(rows, s.current_row());
    if shows_any(s.repos) {
        let (r, w) = choose|r: int, w: int| is_shown(s.repos, r, w);
        let i = rows_before(s.repos, r) + 1 + w;
        rows_before_monotonic(s.repos, r + 1, s.repos.len() as int);
        rows_before_nonnegative(s.repos, r);
        assert(s.repos[r].worktrees.len() <= usize::MAX);
        assert(types::is_row_of(rows[i], r as usize, w as usize));
        assert(types::is_worktree_row(rows[i]));
        let down = types::row_below(rows, s.current_row())->0;
        let up = types::row_above(rows, s.current_row())->0;
        assert(types::is_worktree_row(rows[down]));
        assert(types::is_worktree_row(rows[up]));
        if let FlatListItem::Worktree { repo_idx, worktree_idx, .. } = rows[down] {
            assert(types::is_row_of(rows[down], repo_idx, worktree_idx));
        }
        if let FlatListItem::Worktree { repo_idx, worktree_idx, .. } = rows[up] {
            assert(types::is_row_of(rows[up], repo_idx, worktree_idx));
        }
    } else {
        assert forall|i: int| 0 <= i < rows.len() implies !types::is_worktree_row(
            #[trigger] rows[i],
        ) by {
            if let FlatListItem::Worktree { repo_idx, worktree_idx, .. } = rows[i] {
                assert(types::is_row_of(rows[i], repo_idx, worktree_idx));
                assert(is_shown(s.repos, repo_idx as int, worktree_idx as int));
            }
        }
    }
}

/// From a shown selection, moving up undoes moving down.
pub proof fn up_undoes_down(s: AppStateView)
    requires
        fits(s.repos),
        is_shown(s.repos, s.selected_repo_idx as int, s.selected_worktree_idx as int),
    ensures
        s.moved_down().moved_up() == s,
{
    let t = s.moved_down();
    let rows = s.rows();
    let c = s.current_row();
    current_row_facts(s);
    moving_lands_on_a_shown_worktree(s);
    assert(shows_any(s.repos));
    current_row_facts(t);
    rows_keep_their_worktrees(s, t);
    next_row_facts(rows, 0);
    next_row_facts(rows, c + 1);
    let q = types::row_below(rows, c)->0;
    if let FlatListItem::Worktree { repo_idx, worktree_idx, .. } = rows[q] {
        rows_are_the_shown_worktrees(s.repos, s.selected_repo_idx, s.selected_worktree_idx);
        assert(types::is_row_of(rows[q], repo_idx, worktree_idx));
    }
    assert(t.current_row() == q);
    let after = t.rows();
    previous_row_facts(after, q);
    previous_row_facts(after, after.len() as int);
    assert(types::is_worktree_row(rows[c]));
    assert(types::is_worktree_row(after[c]));
    let back = types::row_above(after, q)->0;
    assert(back == c) by {
        let p = types::previous_worktree_row(after, q);
        let l = types::previous_worktree_row(after, after.len() as int);
        if types::next_worktree_row(rows, c + 1) < rows.len() {
            if p != c {
                assert(types::is_worktree_row(rows[p]));
            }
        } else {
            if p >= 0 {
                assert(types::is_worktree_row(rows[p]));
            }
            if l != c {
                assert(types::is_worktree_row(rows[l]));
            }
        }
    }
    assert(types::is_row_of(rows[c], s.selected_repo_idx, s.selected_worktree_idx));
    assert(types::is_row_of(after[c], s.selected_repo_idx, s.selected_worktree_idx));
}

/// From a shown selection, moving down undoes moving up.
pub proof fn down_undoes_up(s: AppStateView)
    requires
        fits(s.repos),
        is_shown(s.repos, s.selected_repo_idx as int, s.selected_worktree_idx as int),
    ensures
        s.moved_up().moved_down() == s,
{
    let t = s.moved_up();
    let rows = s.rows();
    let c = s.current_row();
    current_row_facts(s);
    moving_lands_on_a_shown_worktree(s);
    assert(shows_any(s.repos));
    current_row_facts(t);
    rows_keep_their_worktrees(s, t);
    previous_row_facts(rows, rows.len() as int);
    previous_row_facts(rows, c);
    let q = types::row_above(rows, c)->0;
    if let FlatListItem::Worktree { repo_idx, worktree_idx, .. } = rows[q] {
        rows_are_the_shown_worktrees(s.repos, s.selected_repo_idx, s.selected_worktree_idx);
        assert(types::is_row_of(rows[q], repo_idx, worktree_idx));
    }
    assert(t.current_row() == q);
    let after = t.rows();
    next_row_facts(after, q + 1);
    next_row_facts(after, 0);
    assert(types::is_worktree_row(rows[c]));
    assert(types::is_worktree_row(after[c]));
    let back = types::row_below(after, q)->0;
    assert(back == c) by {
        let n = types::next_worktree_row(after, q + 1);
        let f = types::next_worktree_row(after, 0);
        if types::previous_worktree_row(rows, c) >= 0 {
            if n != c {
                assert(types::is_worktree_row(rows[n]));
            }
        } else {
            if n < rows.len() {
                assert(types::is_worktree_row(rows[n]));
            }
            if f != c {
                assert(types::is_worktree_row(rows[f]));
            }
        }
    }
    assert(types::is_row_of(rows[c], s.selected_repo_idx, s.selected_worktree_idx));
    assert(types::is_row_of(after[c], s.selected_repo_idx, s.selected_worktree_idx));
}

/// The state after moving the selection down `n` times.
pub open spec fn moved_down_times(s: AppStateView, n: nat) -> AppStateView
    decreases n,
{
    if n == 0 {
        s
    } else {
        moved_down_times(s.moved_down(), (n - 1) as nat)
    }
}

/// Whether moving down `n` times selects worktree `w` of repository `r`.
pub open spec fn selects_after(s: AppStateView, n: nat, r: usize, w: usize) -> bool {
    moved_down_times(s, n).selected_repo_idx == r && moved_down_times(s, n).selected_worktree_idx
        == w
}

/// Moving down from a shown selection goes to the next worktree row, or to the
/// first.
proof fn step_down(s: AppStateView)
    requires
        fits(s.repos),
        is_shown(s.repos, s.selected_repo_idx as int, s.selected_worktree_idx as int),
    ensures
        ({
            let t = s.moved_down();
            let next = types::next_worktree_row(s.rows(), s.current_row() + 1);
            &&& t.repos == s.repos
            &&& is_shown(t.repos, t.selected_repo_idx as int, t.selected_worktree_idx as int)
            &&& t.current_row() == if next < s.rows().len() {
                next
            } else {
                types::next_worktree_row(s.rows(), 0)
            }
        }),
{
    let t = s.moved_down();
    let rows = s.rows();
    let c = s.current_row();
    current_row_facts(s);
    moving_lands_on_a_shown_worktree(s);
    assert(shows_any(s.repos));
    current_row_facts(t);
    next_row_facts(rows, 0);
    next_row_facts(rows, c + 1);
    assert(types::is_worktree_row(rows[c]));
    let q = types::row_below(rows, c)->0;
    if let FlatListItem::Worktree { repo_idx, worktree_idx, .. } = rows[q] {
        rows_are_the_shown_worktrees(s.repos, s.selected_repo_idx, s.selected_worktree_idx);
        assert(types::is_row_of(rows[q], repo_idx, worktree_idx));
    }
}

/// The row of a shown worktree.
proof fn row_of_shown(s: AppStateView, r: usize, w: usize)
    requires
        fits(s.repos),
        is_shown(s.repos, r as int, w as int),
    ensures
        0 <= rows_before(s.repos, r as int) + 1 + w < s.rows().len(),
        types::is_row_of(s.rows()[rows_before(s.repos, r as int) + 1 + w], r, w),
{
    rows_are_the_shown_worktrees(s.repos, s.selected_repo_idx, s.selected_worktree_idx);
    rows_before_monotonic(s.repos, r + 1, s.repos.len() as int);
    rows_before_nonnegative(s.repos, r as int);
    let i = rows_before(s.repos, r as int) + 1 + w;
    assert(types::is_row_of(s.rows()[i], r, w));
}

/// A shown worktree at or below the selection is reached.
proof fn reaches_below(s: AppStateView, r: usize, w: usize)
    requires
        fits(s.repos),
        is_shown(s.repos, s.selected_repo_idx as int, s.selected_worktree_idx as int),
        is_shown(s.repos, r as int, w as int),
        s.current_row() <= rows_before(s.repos, r as int) + 1 + w,
    ensures
        exists|n: nat| selects_after(s, n, r, w),
    decreases rows_before(s.repos, r as int) + 1 + w - s.current_row(),
{
    let target = rows_before(s.repos, r as int) + 1 + w;
    current_row_facts(s);
    row_of_shown(s, r, w);
    if s.current_row() == target {
        assert(selects_after(s, 0, r, w));
    } else {
        let t = s.moved_down();
        step_down(s);
        next_row_facts(s.rows(), s.current_row() + 1);
        assert(types::is_worktree_row(s.rows()[target]));
        reaches_below(t, r, w);
        let n = choose|n: nat| selects_after(t, n, r, w);
        assert(selects_after(s, n + 1, r, w));
    }
}

/// A shown worktree above the selection is reached around the end.
proof fn reaches_around(s: AppStateView, r: usize, w: usize)
    requires
        fits(s.repos),
        is_shown(s.repos, s.selected_repo_idx as int, s.selected_worktree_idx as int),
        is_shown(s.repos, r as int, w as int),
        rows_before(s.repos, r as int) + 1 + w < s.current_row(),
    ensures
        exists|n: nat| selects_after(s, n, r, w),
    decreases s.rows().len() - s.current_row(),
{
    let target = rows_before(s.repos, r as int) + 1 + w;
    let t = s.moved_down();
    current_row_facts(s);
    row_of_shown(s, r, w);
    step_down(s);
    rows_keep_their_worktrees(s, t);
    next_row_facts(s.rows(), s.current_row() + 1);
    next_row_facts(s.rows(), 0);
    assert(types::is_worktree_row(s.rows()[target]));
    if types::next_worktree_row(s.rows(), s.current_row() + 1) < s.rows().len() {
        reaches_around(t, r, w);
    } else {
        reaches_below(t, r, w);
    }
    let n = choose|n: nat| selects_after(t, n, r, w);
    assert(selects_after(s, n + 1, r, w));
}

/// Moving down again and again reaches every worktree that the list shows,
/// whatever was selected before.
pub proof fn moving_down_reaches_every_shown_worktree(s: AppStateView, r: usize, w: usize)
    requires
        fits(s.repos),
        is_shown(s.repos, r as int, w as int),
    ensures
        exists|n: nat| selects_after(s, n, r, w),
{
    let t = s.moved_down();
    moving_lands_on_a_shown_worktree(s);
    assert(shows_any(s.repos));
    assert(t.repos == s.repos);
    if t.current_row() <= rows_before(t.repos, r as int) + 1 + w {
        reaches_below(t, r, w);
    } else {
        reaches_around(t, r, w);
    }
    let n = choose|n: nat| selects_after(t, n, r, w);
    assert(selects_after(s, n + 1, r, w));
}

/// Whether worktree `w2` of repository `r2` stands below worktree `w1` of
/// repository `r1`.
pub open spec fn is_below(r1: int, w1: int, r2: int, w2: int) -> bool {
    r1 < r2 || (r1 == r2 && w1 < w2)
}

/// Rows stand in the order of their repositories and worktrees.
proof fn rows_keep_the_order(repos: Seq<RepositoryView>, r1: int, w1: int, r2: int, w2: int)
    requires
        is_shown(repos, r1, w1),
        is_shown(repos, r2, w2),
    ensures
        is_below(r1, w1, r2, w2) <==> rows_before(repos, r1) + 1 + w1 < rows_before(repos, r2) + 1
            + w2,
{
    if r1 < r2 {
        rows_before_monotonic(repos, r1 + 1, r2);
    } else if r2 < r1 {
        rows_before_monotonic(repos, r2 + 1, r1);
    }
}

/// Where a worktree row is.
proof fn worktree_row_facts(s: AppStateView, i: int)
    requires
        fits(s.repos),
        0 <= i < s.rows().len(),
        types::is_worktree_row(s.rows()[i]),
    ensures
        s.rows()[i] matches FlatListItem::Worktree { repo_idx, worktree_idx, .. } && is_shown(
            s.repos,
            repo_idx as int,
            worktree_idx as int,
        ) && i == rows_before(s.repos, repo_idx as int) + 1 + worktree_idx,
{
    rows_are_the_shown_worktrees(s.repos, s.selected_repo_idx, s.selected_worktree_idx);
    if let FlatListItem::Worktree { repo_idx, worktree_idx, .. } = s.rows()[i] {
        assert(types::is_row_of(s.rows()[i], repo_idx, worktree_idx));
    }
}

/// The row of a shown worktree.
proof fn shown_row_facts(s: AppStateView, r: int, w: int)
    requires
        fits(s.repos),
        is_shown(s.repos, r, w),
    ensures
        ({
            let i = rows_before(s.repos, r) + 1 + w;
            0 <= i < s.rows().len() && types::is_worktree_row(s.rows()[i])
        }),
{
    let i = rows_before(s.repos, r) + 1 + w;
    rows_are_the_shown_worktrees(s.repos, s.selected_repo_idx, s.selected_worktree_idx);
    rows_before_monotonic(s.repos, r + 1, s.repos.len() as int);
    rows_before_nonnegative(s.repos, r);
    assert(s.repos[r].worktrees.len() <= usize::MAX);
    assert(types::is_row_of(s.rows()[i], r as usize, w as usize));
}

/// Moving down selects the next worktree that the list shows: no shown worktree
/// `w` of a repository `r` stands between the two. From the last one it goes to
/// the first. Nothing but the selection changes.
pub proof fn moving_down_selects_the_next_worktree(s: AppStateView, r: int, w: int)
    requires
        fits(s.repos),
        is_shown(s.repos, s.selected_repo_idx as int, s.selected_worktree_idx as int),
        is_shown(s.repos, r, w),
    ensures
        ({
            let t = s.moved_down();
            let (r1, w1) = (s.selected_repo_idx as int, s.selected_worktree_idx as int);
            let (r2, w2) = (t.selected_repo_idx as int, t.selected_worktree_idx as int);
            &&& t == (AppStateView {
                selected_repo_idx: t.selected_repo_idx,
                selected_worktree_idx: t.selected_worktree_idx,
                ..s
            })
            &&& is_shown(s.repos, r2, w2)
            &&& is_below(r1, w1, r2, w2) ==> !(is_below(r1, w1, r, w) && is_below(r, w, r2, w2))
            &&& !is_below(r1, w1, r2, w2) ==> !is_below(r1, w1, r, w) && !is_below(r, w, r2, w2)
        }),
{
    let t = s.moved_down();
    let rows = s.rows();
    let c = s.current_row();
    current_row_facts(s);
    assert(shows_any(s.repos));
    next_row_facts(rows, 0);
    next_row_facts(rows, c + 1);
    assert(types::is_worktree_row(rows[c]));
    let q = types::row_below(rows, c)->0;
    worktree_row_facts(s, q);
    shown_row_facts(s, r, w);
    let (r1, w1) = (s.selected_repo_idx as int, s.selected_worktree_idx as int);
    let (r2, w2) = (t.selected_repo_idx as int, t.selected_worktree_idx as int);
    rows_keep_the_order(s.repos, r1, w1, r2, w2);
    rows_keep_the_order(s.repos, r1, w1, r, w);
    rows_keep_the_order(s.repos, r, w, r2, w2);
}

/// Moving up selects the previous worktree that the list shows: no shown
/// worktree `w` of a repository `r` stands between the two. From the first one
/// it goes to the last. Nothing but the selection changes.
pub proof fn moving_up_selects_the_previous_worktree(s: AppStateView, r: int, w: int)
    requires
        fits(s.repos),
        is_shown(s.repos, s.selected_repo_idx as int, s.selected_worktree_idx as int),
        is_shown(s.repos, r, w),
    ensures
        ({
            let t = s.moved_up();
            let (r1, w1) = (s.selected_repo_idx as int, s.selected_worktree_idx as int);
            let (r2, w2) = (t.selected_repo_idx as int, t.selected_worktree_idx as int);
            &&& t == (AppStateView {
                selected_repo_idx: t.selected_repo_idx,
                selected_worktree_idx: t.selected_worktree_idx,
                ..s
            })
            &&& is_shown(s.repos, r2, w2)
            &&& is_below(r2, w2, r1, w1) ==> !(is_below(r2, w2, r, w) && is_below(r, w, r1, w1))
            &&& !is_below(r2, w2, r1, w1) ==> !is_below(r, w, r1, w1) && !is_below(r2, w2, r, w)
        }),
{
    let t = s.moved_up();
    let rows = s.rows();
    let c = s.current_row();
    current_row_facts(s);
    assert(shows_any(s.repos));
    previous_row_facts(rows, rows.len() as int);
    previous_row_facts(rows, c);
    assert(types::is_worktree_row(rows[c]));
    let q = types::row_above(rows, c)->0;
    worktree_row_facts(s, q);
    shown_row_facts(s, r, w);
    let (r1, w1) = (s.selected_repo_idx as int, s.selected_worktree_idx as int);
    let (r2, w2) = (t.selected_repo_idx as int, t.selected_worktree_idx as int);
    rows_keep_the_order(s.repos, r2, w2, r1, w1);
    rows_keep_the_order(s.repos, r, w, r1, w1);
    rows_keep_the_order(s.repos, r2, w2, r, w);
}

/// A selection that the list does not show counts as the first row: moving down
/// goes to the first shown worktree, and moving up to the last.
pub proof fn a_hidden_selection_is_left(s: AppStateView, r: int, w: int)
    requires
        fits(s.repos),
        !is_shown(s.repos, s.selected_repo_idx as int, s.selected_worktree_idx as int),
        is_shown(s.repos, r, w),
    ensures
        s.current_row() == 0,
        !is_below(
            r,
            w,
            s.moved_down().selected_repo_idx as int,
            s.moved_down().selected_worktree_idx as int,
        ),
        !is_below(
            s.moved_up().selected_repo_idx as int,
            s.moved_up().selected_worktree_idx as int,
            r,
            w,
        ),
{
    let rows = s.rows();
    let (r1, w1) = (s.selected_repo_idx, s.selected_worktree_idx);
    rows_are_the_shown_worktrees(s.repos, r1, w1);
    row_search_facts(rows, 0, r1, w1);
    assert(types::row_of_from(rows, 0, r1, w1) == rows.len()) by {
        let n = types::row_of_from(rows, 0, r1, w1);
        if n < rows.len() {
            assert(types::is_row_of(rows[n], r1, w1));
        }
    }
    shown_row_facts(s, r, w);
    assert(!types::is_worktree_row(rows[0])) by {
        if types::is_worktree_row(rows[0]) {
            worktree_row_facts(s, 0);
            rows_before_nonnegative(s.repos, rows[0]->Worktree_repo_idx as int);
        }
    }
    next_row_facts(rows, 0);
    next_row_facts(rows, 1);
    previous_row_facts(rows, rows.len() as int);
    previous_row_facts(rows, 0);
    let down = types::row_below(rows, 0)->0;
    let up = types::row_above(rows, 0)->0;
    worktree_row_facts(s, down);
    worktree_row_facts(s, up);
    let d = s.moved_down();
    let u = s.moved_up();
    rows_keep_the_order(
        s.repos,
        r,
        w,
        d.selected_repo_idx as int,
        d.selected_worktree_idx as int,
    );
    rows_keep_the_order(
        s.repos,
        u.selected_repo_idx as int,
        u.selected_worktree_idx as int,
        r,
        w,
    );
}

/// Every repository has its own row, above those of its worktrees; and a row is
/// marked as selected exactly where it is the selected repository or the
/// selected worktree.
pub proof fn rows_are_marked_as_selected(
    repos: Seq<RepositoryView>,
    sel_repo: usize,
    sel_worktree: usize,
)
    requires
        fits(repos),
    ensures
        ({
            let rows = types::flat_rows(repos, sel_repo, sel_worktree);
            &&& rows.len() == rows_before(repos, repos.len() as int)
            &&& forall|i: int|
                0 <= i < rows.len() ==> match #[trigger] rows[i] {
                    FlatListItem::Repo { idx, is_selected } => idx < repos.len() && i
                        == rows_before(repos, idx as int) && is_selected == (idx == sel_repo),
                    FlatListItem::Worktree { repo_idx, worktree_idx, is_selected } => is_selected
                        == (repo_idx == sel_repo && worktree_idx == sel_worktree),
                }
            &&& forall|r: int|
                0 <= r < repos.len() ==> (rows[#[trigger] rows_before(
                    repos,
                    r,
                )] matches FlatListItem::Repo { idx, .. } && idx == r)
        }),
    decreases repos.len(),
{
    rows_are_the_shown_worktrees(repos, sel_repo, sel_worktree);
    if repos.len() > 0 {
        let n = repos.len() - 1;
        let front = repos.drop_last();
        let last = repos.last();
        let before = types::flat_rows(front, sel_repo, sel_worktree);
        let rows = types::flat_rows(repos, sel_repo, sel_worktree);
        assert forall|r: int| 0 <= r < front.len() implies (#[trigger] front[r]).worktrees.len()
            <= usize::MAX by {
            assert(front[r] == repos[r]);
        }
        rows_are_marked_as_selected(front, sel_repo, sel_worktree);
        rows_before_prefix(repos, n);
        assert(before.len() == rows_before(repos, n));
        assert(repos[n].worktrees.len() <= usize::MAX);
        assert forall|i: int| 0 <= i < rows.len() implies match #[trigger] rows[i] {
            FlatListItem::Repo { idx, is_selected } => idx < repos.len() && i == rows_before(
                repos,
                idx as int,
            ) && is_selected == (idx == sel_repo),
            FlatListItem::Worktree { repo_idx, worktree_idx, is_selected } => is_selected == (
            repo_idx == sel_repo && worktree_idx == sel_worktree),
        } by {
            if i < before.len() {
                assert(rows[i] == before[i]);
                if let FlatListItem::Repo { idx, .. } = before[i] {
                    rows_before_prefix(repos, idx as int);
                }
            }
        }
        assert forall|r: int| 0 <= r < repos.len() implies (rows[#[trigger] rows_before(
            repos,
            r,
        )] matches FlatListItem::Repo { idx, .. } && idx == r) by {
            if r < n {
                rows_before_prefix(repos, r);
                rows_before_nonnegative(repos, r);
                rows_before_monotonic(repos, r + 1, n);
                assert(rows[rows_before(repos, r)] == before[rows_before(front, r)]);
            }
        }
    }
}

} // verus!
