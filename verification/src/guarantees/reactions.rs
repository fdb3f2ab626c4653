//! What the application makes of each thing that it is told.
use vstd::prelude::*;

use crate::app;
use crate::app::{AppView, EffectView, TerminalSnapshotView};
use crate::cache;
use crate::config::{ConfigView, RepoConfigView};
use crate::events::handler;
use crate::events::{AppEventView, EventView};
use crate::github::pr;
use crate::github::pr::PrInfoView;
use crate::keybindings::BindingView;
use crate::paths;
use crate::paths::UserDirView;
use crate::pty;
use crate::state::types;
use crate::state::types::{
    AddRepoDialogView, AppStateView, DeleteWorktreeDialogView, NewWorktreeDialogView, PanelFocus,
    RepositoryView,
};

verus! {

/// The application and the effects after an event.
pub open spec fn after(
    a: AppView,
    event: AppEventView,
    t: TerminalSnapshotView,
    home: UserDirView,
) -> (AppView, Seq<EffectView>) {
    a.processed(event, t, home).0
}

/// Whether a new frame is needed after an event.
pub open spec fn redraws(
    a: AppView,
    event: AppEventView,
    t: TerminalSnapshotView,
    home: UserDirView,
) -> bool {
    a.processed(event, t, home).1
}

/// The effects of asking for a refresh: one refresh, unless one is running.
pub open spec fn refresh_of(a: AppView) -> Seq<EffectView> {
    if a.state.is_refreshing {
        Seq::empty()
    } else {
        seq![EffectView::StartRefresh]
    }
}

/// The application starts with the worktree panel focused, the first worktree
/// selected, nothing open, no sessions and no refresh running; sessions will
/// run the configured shell.
pub proof fn the_application_starts_quietly(
    repos: Seq<RepositoryView>,
    keys: Seq<BindingView>,
    config: ConfigView,
)
    ensures
        ({
            let s = AppStateView::initial(repos, keys);
            let a = AppView::initial(s, config);
            &&& a.state == s && a.config == config
            &&& s.repos == repos && s.keybindings == keys
            &&& s.selected_repo_idx == 0 && s.selected_worktree_idx == 0
            &&& s.focus == PanelFocus::WorktreeList
            &&& s.new_worktree_dialog is None && s.add_repo_dialog is None
                && s.delete_worktree_dialog is None
            &&& !s.is_refreshing && !s.should_quit
            &&& a.pty_manager.sessions.len() == 0
            &&& a.pty_manager.shell == config.shell
            &&& a.last_synced_inner == (0u16, 0u16)
            &&& a.refresh_triggered().1 == seq![EffectView::StartRefresh]
        }),
{
}

/// A frame is drawn after whatever may have changed what is shown: output of
/// the selected worktree's session, not of another; every second while there
/// are sessions; and all other events but the start of a refresh and the end.
pub proof fn frames_are_drawn_where_something_changed(
    a: AppView,
    event: AppEventView,
    t: TerminalSnapshotView,
    home: UserDirView,
)
    ensures
        redraws(a, event, t, home) <==> match event {
            AppEventView::PtyOutput { worktree_path } => a.state.selected() matches Some(w)
                && paths::same_path(w.path, worktree_path),
            AppEventView::Tick => a.pty_manager.sessions.len() > 0,
            AppEventView::RefreshTick => false,
            AppEventView::Quit => false,
            _ => true,
        },
{
}

/// Output, ticks and failed refreshes change nothing; quitting only says so,
/// and the tick of the interval asks for a refresh.
pub proof fn quiet_events_change_nothing(
    a: AppView,
    path: Seq<u8>,
    e: Seq<char>,
    t: TerminalSnapshotView,
    home: UserDirView,
)
    ensures
        after(a, AppEventView::PtyOutput { worktree_path: path }, t, home) == (
            a,
            Seq::<EffectView>::empty(),
        ),
        after(a, AppEventView::Tick, t, home) == (a, Seq::<EffectView>::empty()),
        after(a, AppEventView::RefreshError(e), t, home) == (a, Seq::<EffectView>::empty()),
        after(a, AppEventView::Quit, t, home) == (
            a.with_state(AppStateView { should_quit: true, ..a.state }),
            Seq::<EffectView>::empty(),
        ),
        after(a, AppEventView::RefreshTick, t, home) == (
            a.with_state(AppStateView { is_refreshing: true, ..a.state }),
            refresh_of(a),
        ),
        after(a, AppEventView::Crossterm(EventView::FocusGained), t, home) == (
            a,
            Seq::<EffectView>::empty(),
        ),
        after(a, AppEventView::Crossterm(EventView::FocusLost), t, home) == (
            a,
            Seq::<EffectView>::empty(),
        ),
{
}

// ---------------------------------------------------------------------------
// Refreshing
// ---------------------------------------------------------------------------

/// When a refresh ends, everything that is shown is saved, so that the next
/// start shows it again: for a tracked path, the worktrees and the backend of
/// the repository that has it.
pub proof fn what_is_shown_is_saved(
    a: AppView,
    i: int,
    t: TerminalSnapshotView,
    home: UserDirView,
)
    requires
        0 <= i < a.state.repos.len(),
        forall|j: int|
            0 <= j < i ==> !paths::same_path(
                (#[trigger] a.state.repos[j]).config.path,
                a.state.repos[i].config.path,
            ),
    ensures
        ({
            let (b, effects) = after(a, AppEventView::RefreshDone, t, home);
            &&& b == a.with_state(AppStateView { is_refreshing: false, ..a.state })
            &&& effects.len() == 1
            &&& effects[0] matches EffectView::SaveCache(saved) && {
                let shown = cache::hydrated(a.state.repos[i].config, saved);
                &&& saved.len() == a.state.repos.len()
                &&& shown.config == a.state.repos[i].config
                &&& shown.worktrees == a.state.repos[i].worktrees
                &&& shown.backend == a.state.repos[i].backend
            }
        }),
{
    let path = a.state.repos[i].config.path;
    paths::same_path_equivalence(path, path, path);
    cache::saved_repositories_come_back(a.state.repos[i].config, a.state.repos, i);
}

/// A loaded repository takes the place of the first one with its path, as
/// expanded as that one was, or comes last; every other repository stays. The
/// selection then points at a worktree if it can, and nothing else changes.
pub proof fn loaded_repositories_are_shown(
    a: AppView,
    repo: RepositoryView,
    t: TerminalSnapshotView,
    home: UserDirView,
)
    ensures
        ({
            let (b, effects) = after(a, AppEventView::RepoLoaded(repo), t, home);
            let n = a.state.repos.len();
            &&& effects.len() == 0
            &&& b == (AppView { state: b.state, ..a })
            &&& b.state == (AppStateView {
                repos: b.state.repos,
                selected_repo_idx: b.state.selected_repo_idx,
                selected_worktree_idx: b.state.selected_worktree_idx,
                ..a.state
            })
            &&& exists|i: int| #[trigger]
                takes_place(a.state.repos, b.state.repos, repo, i)
            &&& b.state.selected_repo_idx < b.state.repos.len() || b.state.repos.len()
                > usize::MAX
            &&& a.state.selected_repo_idx < b.state.repos.len() ==> b.state.selected_repo_idx
                == a.state.selected_repo_idx
            &&& a.state.selected_repo_idx < b.state.repos.len() && a.state.selected_worktree_idx
                < b.state.repos[a.state.selected_repo_idx as int].worktrees.len()
                ==> b.state.selected_worktree_idx == a.state.selected_worktree_idx
        }),
{
    app::repo_index_facts(a.state.repos, repo.config.path);
    let i = app::repo_index(a.state.repos, repo.config.path);
    let b = after(a, AppEventView::RepoLoaded(repo), t, home).0;
    assert(takes_place(a.state.repos, b.state.repos, repo, i));
}

/// Whether `new` is `old_repos` with the repository at place `i`, which is the
/// first one with its path or the end.
pub open spec fn takes_place(
    old_repos: Seq<RepositoryView>,
    new: Seq<RepositoryView>,
    repo: RepositoryView,
    i: int,
) -> bool {
    &&& 0 <= i <= old_repos.len()
    &&& forall|j: int|
        0 <= j < i ==> !paths::same_path((#[trigger] old_repos[j]).config.path, repo.config.path)
    &&& i < old_repos.len() ==> {
        &&& paths::same_path(old_repos[i].config.path, repo.config.path)
        &&& new.len() == old_repos.len()
        &&& new[i] == (RepositoryView { is_expanded: old_repos[i].is_expanded, ..repo })
    }
    &&& i == old_repos.len() ==> new.len() == i + 1 && new[i] == repo
    &&& forall|j: int| 0 <= j < old_repos.len() && j != i ==> #[trigger] new[j] == old_repos[j]
}

/// Pull requests of a repository become the badges of its worktrees, each by
/// its branch: the first pull request from the branch, or no badge. Nothing
/// else changes, and an unknown repository changes nothing.
pub proof fn pull_requests_become_badges(
    a: AppView,
    path: Seq<u8>,
    prs: Seq<PrInfoView>,
    t: TerminalSnapshotView,
    home: UserDirView,
)
    ensures
        ({
            let (b, effects) = after(
                a,
                AppEventView::PrsFetched { repo_path: path, prs },
                t,
                home,
            );
            let i = app::repo_index(a.state.repos, path);
            &&& effects.len() == 0
            &&& b == a.with_state(AppStateView { repos: b.state.repos, ..a.state })
            &&& b.state.repos.len() == a.state.repos.len()
            &&& forall|j: int|
                0 <= j < a.state.repos.len() && j != i ==> #[trigger] b.state.repos[j]
                    == a.state.repos[j]
            &&& i < a.state.repos.len() ==> {
                let old_repo = a.state.repos[i];
                let new = b.state.repos[i];
                &&& new == (RepositoryView { worktrees: new.worktrees, ..old_repo })
                &&& new.worktrees.len() == old_repo.worktrees.len()
                &&& forall|w: int|
                    0 <= w < new.worktrees.len() ==> {
                        let x = #[trigger] new.worktrees[w];
                        x == (types::WorktreeView { pr: x.pr, ..old_repo.worktrees[w] })
                            && pr::is_badge(x.pr, prs, old_repo.worktrees[w].branch)
                    }
            }
        }),
{
    app::repo_index_facts(a.state.repos, path);
    let i = app::repo_index(a.state.repos, path);
    if i < a.state.repos.len() {
        let b = after(a, AppEventView::PrsFetched { repo_path: path, prs }, t, home).0;
        let new = b.state.repos[i];
        assert forall|w: int| 0 <= w < new.worktrees.len() implies pr::is_badge(
            (#[trigger] new.worktrees[w]).pr,
            prs,
            a.state.repos[i].worktrees[w].branch,
        ) by {
            pr::first_pull_request_is_the_badge(prs, a.state.repos[i].worktrees[w].branch);
        }
    }
}

// ---------------------------------------------------------------------------
// Outcomes of what the user asked for
// ---------------------------------------------------------------------------

/// When a worktree was created, the form closes and a refresh shows it.
pub proof fn created_worktrees_are_refreshed(
    a: AppView,
    repo_path: Seq<u8>,
    worktree_path: Seq<u8>,
    t: TerminalSnapshotView,
    home: UserDirView,
)
    ensures
        after(a, AppEventView::WorktreeCreated { repo_path, worktree_path }, t, home) == (
            a.with_state(
                AppStateView { new_worktree_dialog: None, is_refreshing: true, ..a.state },
            ),
            refresh_of(a),
        ),
{
}

/// When a worktree was deleted, the question closes, its session ends and no
/// other, and a refresh shows what is left.
pub proof fn deleted_worktrees_are_refreshed(
    a: AppView,
    repo_path: Seq<u8>,
    worktree_path: Seq<u8>,
    other: Seq<u8>,
    t: TerminalSnapshotView,
    home: UserDirView,
)
    requires
        !paths::same_path(worktree_path, other),
    ensures
        ({
            let (b, effects) = after(
                a,
                AppEventView::WorktreeDeleted { repo_path, worktree_path },
                t,
                home,
            );
            &&& b.state == (AppStateView {
                delete_worktree_dialog: None,
                is_refreshing: true,
                ..a.state
            })
            &&& b == (AppView { state: b.state, pty_manager: b.pty_manager, ..a })
            &&& b.pty_manager.has(other) == a.pty_manager.has(other)
            &&& b.pty_manager.shell == a.pty_manager.shell
            &&& effects == seq![EffectView::RemoveSession { path: worktree_path }] + refresh_of(a)
        }),
{
    pty::removing_ends_one_session(a.pty_manager, worktree_path, other);
}

/// A path that was found usable is tracked from then on, in the settings and in
/// the list, behind all others and without worktrees; the settings are saved
/// and a refresh loads it.
pub proof fn added_repositories_are_saved_and_refreshed(
    a: AppView,
    path: Seq<u8>,
    t: TerminalSnapshotView,
    home: UserDirView,
)
    ensures
        ({
            let (b, effects) = after(a, AppEventView::RepoAdded(path), t, home);
            let n = a.state.repos.len() as int;
            &&& b.config == (ConfigView {
                repos: a.config.repos.push(RepoConfigView { path, name: None }),
                ..a.config
            })
            &&& b.state == (AppStateView {
                repos: b.state.repos,
                add_repo_dialog: None,
                is_refreshing: true,
                ..a.state
            })
            &&& b == (AppView { state: b.state, config: b.config, ..a })
            &&& b.state.repos.len() == n + 1
            &&& b.state.repos.drop_last() == a.state.repos
            &&& b.state.repos[n].config == (RepoConfigView { path, name: None })
            &&& b.state.repos[n].worktrees.len() == 0
            &&& b.state.repos[n].is_expanded
            &&& effects == seq![EffectView::SaveConfig] + refresh_of(a)
        }),
{
    let b = after(a, AppEventView::RepoAdded(path), t, home).0;
    assert(b.state.repos.drop_last() =~= a.state.repos);
}

/// A failure goes back into the dialog that waits for it, which can then be
/// answered again; nothing else changes, and a dialog that was closed stays
/// closed.
pub proof fn failures_go_back_to_their_dialog(
    a: AppView,
    e: Seq<char>,
    t: TerminalSnapshotView,
    home: UserDirView,
)
    ensures
        ({
            let (b, effects) = after(a, AppEventView::WorktreeCreateError(e), t, home);
            &&& effects.len() == 0
            &&& b == handler::with_new_worktree(a, b.state.new_worktree_dialog)
            &&& b.state.new_worktree_dialog is Some == a.state.new_worktree_dialog is Some
            &&& a.state.new_worktree_dialog matches Some(d) ==> b.state.new_worktree_dialog == Some(
                NewWorktreeDialogView { is_creating: false, error: Some(e), ..d },
            )
        }),
        ({
            let (b, effects) = after(a, AppEventView::RepoAddError(e), t, home);
            &&& effects.len() == 0
            &&& b == handler::with_add_repo(a, b.state.add_repo_dialog)
            &&& b.state.add_repo_dialog is Some == a.state.add_repo_dialog is Some
            &&& a.state.add_repo_dialog matches Some(d) ==> b.state.add_repo_dialog == Some(
                AddRepoDialogView { is_adding: false, error: Some(e), ..d },
            )
        }),
        ({
            let (b, effects) = after(a, AppEventView::WorktreeDeleteError(e), t, home);
            &&& effects.len() == 0
            &&& b == handler::with_delete(a, b.state.delete_worktree_dialog)
            &&& b.state.delete_worktree_dialog is Some == a.state.delete_worktree_dialog is Some
            &&& a.state.delete_worktree_dialog matches Some(d) ==> b.state.delete_worktree_dialog
                == Some(DeleteWorktreeDialogView { is_deleting: false, error: Some(e), ..d })
        }),
{
}

/// A selection that points past the end goes to the last repository, or to the
/// last worktree of its repository.
pub proof fn lost_selections_go_to_the_last_place(s: AppStateView)
    requires
        0 < s.repos.len() <= usize::MAX,
    ensures
        ({
            let c = s.clamped();
            let n = c.repos[c.selected_repo_idx as int].worktrees.len();
            &&& c == (AppStateView {
                selected_repo_idx: c.selected_repo_idx,
                selected_worktree_idx: c.selected_worktree_idx,
                ..s
            })
            &&& s.selected_repo_idx < s.repos.len() ==> c.selected_repo_idx == s.selected_repo_idx
            &&& s.selected_repo_idx >= s.repos.len() ==> c.selected_repo_idx == s.repos.len() - 1
            &&& s.selected_worktree_idx < n ==> c.selected_worktree_idx == s.selected_worktree_idx
            &&& n > 0 && s.selected_worktree_idx >= n ==> c.selected_worktree_idx == n - 1
            &&& n == 0 ==> c.selected_worktree_idx == 0
        }),
{
}

} // verus!
