//! Pull requests as GitHub reports them, and how they become badges.
use vstd::prelude::*;

use crate::state::types;
use crate::state::types::{PrState, PullRequest, PullRequestView, Worktree, WorktreeView};
use crate::text::str_eq;

verus! {

/// A pull request as GitHub reports it.
#[derive(Debug, Clone)]
pub struct PrInfo {
    pub number: u64,
    pub title: String,
    /// "OPEN", "CLOSED" or "MERGED".
    pub state: String,
    pub is_draft: bool,
    pub url: String,
    /// The branch that it would merge.
    pub head_ref: String,
}

#[verifier::ext_equal]
pub struct PrInfoView {
    pub number: u64,
    pub title: Seq<char>,
    pub state: Seq<char>,
    pub is_draft: bool,
    pub url: Seq<char>,
    pub head_ref: Seq<char>,
}

impl View for PrInfo {
    type V = PrInfoView;

    open spec fn view(&self) -> PrInfoView {
        PrInfoView {
            number: self.number,
            title: self.title@,
            state: self.state@,
            is_draft: self.is_draft,
            url: self.url@,
            head_ref: self.head_ref@,
        }
    }
}

/// The reported pull requests of a list.
pub open spec fn infos_view(s: Seq<PrInfo>) -> Seq<PrInfoView> {
    s.map_values(|p: PrInfo| p@)
}

/// The state of a reported name: open for anything but "MERGED" and "CLOSED".
pub open spec fn reported_state(name: Seq<char>) -> PrState {
    if name == "MERGED"@ {
        PrState::Merged
    } else if name == "CLOSED"@ {
        PrState::Closed
    } else {
        PrState::Open
    }
}

/// The badge of a reported pull request.
pub open spec fn badge_of(p: PrInfoView) -> PullRequestView {
    PullRequestView {
        number: p.number,
        title: p.title,
        state: reported_state(p.state),
        is_draft: p.is_draft,
        url: p.url,
    }
}

/// The badge of a reported pull request.
fn badge(p: &PrInfo) -> (r: PullRequest)
    ensures
        r@ == badge_of(p@),
{
    PullRequest {
        number: p.number,
        title: p.title.clone(),
        state: if str_eq(p.state.as_str(), "MERGED") {
            PrState::Merged
        } else if str_eq(p.state.as_str(), "CLOSED") {
            PrState::Closed
        } else {
            PrState::Open
        },
        is_draft: p.is_draft,
        url: p.url.clone(),
    }
}

/// The badge of a branch: that of the first pull request from it.
pub open spec fn badge_for(prs: Seq<PrInfoView>, branch: Seq<char>) -> Option<PullRequestView>
    decreases prs.len(),
{
    if prs.len() == 0 {
        None
    } else if prs[0].head_ref == branch {
        Some(badge_of(prs[0]))
    } else {
        badge_for(prs.drop_first(), branch)
    }
}

/// The badge of a branch: that of the first pull request from it.
pub fn pr_for_branch(prs: &Vec<PrInfo>, branch: &str) -> (r: Option<PullRequest>)
    ensures
        types::pr_view(r) == badge_for(infos_view(prs@), branch@),
{
    let ghost all = infos_view(prs@);
    let mut i: usize = 0;
    assert(all.skip(0) =~= all);
    while i < prs.len()
        invariant
            i <= prs.len(),
            all == infos_view(prs@),
            badge_for(all, branch@) == badge_for(all.skip(i as int), branch@),
        decreases prs.len() - i,
    {
        assert(all.skip(i as int)[0] == prs@[i as int]@);
        if str_eq(prs[i].head_ref.as_str(), branch) {
            return Some(badge(&prs[i]));
        }
        assert(all.skip(i as int).drop_first() =~= all.skip(i + 1));
        i += 1;
    }
    None
}

/// The worktrees with the badges of their branches; a worktree whose branch has
/// no pull request loses its badge.
pub open spec fn with_badges(worktrees: Seq<WorktreeView>, prs: Seq<PrInfoView>) -> Seq<
    WorktreeView,
> {
    worktrees.map_values(|w: WorktreeView| WorktreeView { pr: badge_for(prs, w.branch), ..w })
}

/// Gives each worktree the badge of its branch.
pub fn patch_badges(worktrees: &mut Vec<Worktree>, prs: &Vec<PrInfo>)
    ensures
        types::worktrees_view(final(worktrees)@) == with_badges(
            types::worktrees_view(old(worktrees)@),
            infos_view(prs@),
        ),
{
    let ghost before = worktrees@;
    let mut i: usize = 0;
    while i < worktrees.len()
        invariant
            i <= worktrees.len(),
            worktrees.len() == before.len(),
            forall|j: int|
                0 <= j < i ==> (#[trigger] worktrees@[j])@ == (WorktreeView {
                    pr: badge_for(infos_view(prs@), before[j]@.branch),
                    ..before[j]@
                }),
            forall|j: int| i <= j < before.len() ==> #[trigger] worktrees@[j] == before[j],
        decreases worktrees.len() - i,
    {
        let pr = pr_for_branch(prs, worktrees[i].branch.as_str());
        worktrees[i].pr = pr;
        i += 1;
    }
    assert(types::worktrees_view(worktrees@) =~= with_badges(
        types::worktrees_view(before),
        infos_view(prs@),
    ));
}

/// The badge of a branch belongs to a pull request from that branch, and there
/// is one exactly when such a pull request was reported.
pub proof fn badges_belong_to_the_branch(prs: Seq<PrInfoView>, branch: Seq<char>)
    ensures
        badge_for(prs, branch) is Some <==> exists|i: int|
            0 <= i < prs.len() && (#[trigger] prs[i]).head_ref == branch,
        badge_for(prs, branch) is Some ==> exists|i: int|
            0 <= i < prs.len() && (#[trigger] prs[i]).head_ref == branch && badge_for(prs, branch)
                == Some(badge_of(prs[i])),
    decreases prs.len(),
{
    if prs.len() > 0 && prs[0].head_ref != branch {
        let rest = prs.drop_first();
        badges_belong_to_the_branch(rest, branch);
        if badge_for(prs, branch) is Some {
            let i = choose|i: int|
                0 <= i < rest.len() && (#[trigger] rest[i]).head_ref == branch && badge_for(
                    rest,
                    branch,
                ) == Some(badge_of(rest[i]));
            assert(prs[i + 1].head_ref == branch);
        }
        if exists|i: int| 0 <= i < prs.len() && (#[trigger] prs[i]).head_ref == branch {
            let i = choose|i: int| 0 <= i < prs.len() && (#[trigger] prs[i]).head_ref == branch;
            assert(rest[i - 1].head_ref == branch);
        }
    }
}

/// Whether the badge is that of the first pull request from the branch, or none
/// where there is no such pull request.
pub open spec fn is_badge(
    badge: Option<PullRequestView>,
    prs: Seq<PrInfoView>,
    branch: Seq<char>,
) -> bool {
    match badge {
        None => forall|i: int| 0 <= i < prs.len() ==> (#[trigger] prs[i]).head_ref != branch,
        Some(b) => exists|i: int| #[trigger] is_first_from(prs, branch, i) && shows(b, prs[i]),
    }
}

/// Whether pull request `i` is the first from the branch.
pub open spec fn is_first_from(prs: Seq<PrInfoView>, branch: Seq<char>, i: int) -> bool {
    &&& 0 <= i < prs.len()
    &&& prs[i].head_ref == branch
    &&& forall|j: int| 0 <= j < i ==> (#[trigger] prs[j]).head_ref != branch
}

/// Whether the badge shows the pull request: its number, title, address and
/// whether it is a draft, and as its state what the report calls it, where
/// unknown words count as open.
pub open spec fn shows(b: PullRequestView, p: PrInfoView) -> bool {
    &&& b.number == p.number
    &&& b.title == p.title
    &&& b.url == p.url
    &&& b.is_draft == p.is_draft
    &&& b.state == PrState::Merged <==> p.state == seq!['M', 'E', 'R', 'G', 'E', 'D']
    &&& b.state == PrState::Closed <==> p.state == seq!['C', 'L', 'O', 'S', 'E', 'D']
}

/// The badge of a branch shows the first pull request from it.
pub proof fn first_pull_request_is_the_badge(prs: Seq<PrInfoView>, branch: Seq<char>)
    ensures
        is_badge(badge_for(prs, branch), prs, branch),
    decreases prs.len(),
{
    if prs.len() > 0 {
        reveal_strlit("MERGED");
        reveal_strlit("CLOSED");
        assert("MERGED"@ =~= seq!['M', 'E', 'R', 'G', 'E', 'D']);
        assert("CLOSED"@ =~= seq!['C', 'L', 'O', 'S', 'E', 'D']);
        assert("MERGED"@[0] != "CLOSED"@[0]);
        if prs[0].head_ref == branch {
            assert(is_first_from(prs, branch, 0));
            assert(shows(badge_of(prs[0]), prs[0]));
        } else {
            let rest = prs.drop_first();
            first_pull_request_is_the_badge(rest, branch);
            match badge_for(rest, branch) {
                Some(b) => {
                    let i = choose|i: int| #[trigger] is_first_from(rest, branch, i) && shows(
                        b,
                        rest[i],
                    );
                    assert forall|j: int| 0 <= j < i + 1 implies (#[trigger] prs[j]).head_ref
                        != branch by {
                        if j > 0 {
                            assert(prs[j] == rest[j - 1]);
                        }
                    }
                    assert(is_first_from(prs, branch, i + 1));
                },
                None => {
                    assert forall|j: int| 0 <= j < prs.len() implies (#[trigger] prs[j]).head_ref
                        != branch by {
                        if j > 0 {
                            assert(prs[j] == rest[j - 1]);
                        }
                    }
                },
            }
        }
    }
}

} // verus!
