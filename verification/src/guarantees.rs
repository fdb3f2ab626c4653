//! What holds of the application whatever happens.
use vstd::prelude::*;
use vstd::utf8;

use crate::app;
use crate::app::{AppView, EffectView, TerminalSnapshotView};
use crate::edit;
use crate::events::handler;
use crate::events::input::{KeyCode, KeyEvent, MouseEvent};
use crate::events::{AppEventView, EventView};
use crate::keybindings::Action;
use crate::paths;
use crate::paths::UserDirView;
use crate::pty;
use crate::state::selection;
use crate::state::types;
use crate::state::types::{
    AddRepoDialogView, AppStateView, DeleteWorktreeDialogView, NewWorktreeDialogView, PanelFocus,
    RepositoryView,
};

pub mod dialogs;
pub mod mouse;
pub mod outcomes;
pub mod reactions;
pub mod typing;

verus! {

// ---------------------------------------------------------------------------
// Refreshing
// ---------------------------------------------------------------------------

/// Asking for a refresh twice starts one refresh.
pub proof fn second_request_starts_nothing(a: AppView)
    ensures
        ({
            let (b, _) = a.refresh_triggered();
            b.state.is_refreshing && b.refresh_triggered() == (b, Seq::<EffectView>::empty())
        }),
{
}

/// Whether the effects start a refresh.
pub open spec fn starts_refresh(effects: Seq<EffectView>) -> bool {
    exists|i: int| 0 <= i < effects.len() && (#[trigger] effects[i]) is StartRefresh
}

/// Refreshes never overlap: whatever happens, one starts only where none is
/// running, at most one starts, and it runs until all repositories have
/// finished.
pub proof fn refreshes_do_not_overlap(
    a: AppView,
    event: AppEventView,
    t: TerminalSnapshotView,
    home: UserDirView,
)
    ensures
        ({
            let ((b, effects), _) = a.processed(event, t, home);
            &&& starts_refresh(effects) ==> !a.state.is_refreshing && b.state.is_refreshing
            &&& a.state.is_refreshing && !(event is RefreshDone) ==> b.state.is_refreshing
            &&& forall|i: int, j: int|
                0 <= i < effects.len() && 0 <= j < effects.len() && (#[trigger] effects[i]) is
                    StartRefresh && (#[trigger] effects[j]) is StartRefresh ==> i == j
        }),
{
    if let AppEventView::Crossterm(e) = event {
        terminal_events_refresh_once(a, e, t, home);
    }
}

/// The same of what the user does in the terminal.
proof fn terminal_events_refresh_once(
    a: AppView,
    e: EventView,
    t: TerminalSnapshotView,
    home: UserDirView,
)
    ensures
        ({
            let (b, effects) = handler::event_handled(a, e, t, home);
            &&& starts_refresh(effects) ==> !a.state.is_refreshing && b.state.is_refreshing
            &&& a.state.is_refreshing ==> b.state.is_refreshing
            &&& forall|i: int, j: int|
                0 <= i < effects.len() && 0 <= j < effects.len() && (#[trigger] effects[i]) is
                    StartRefresh && (#[trigger] effects[j]) is StartRefresh ==> i == j
        }),
{
}

/// A refresh that failed for one repository goes on for the others.
pub proof fn errors_do_not_end_a_refresh(
    a: AppView,
    e: Seq<char>,
    t: TerminalSnapshotView,
    home: UserDirView,
)
    ensures
        a.processed(AppEventView::RefreshError(e), t, home).0 == (a, Seq::<EffectView>::empty()),
{
}

// ---------------------------------------------------------------------------
// Selection
// ---------------------------------------------------------------------------

/// After clamping, the selection points at a worktree wherever the selected
/// repository has one, and clamping leaves a valid selection alone.
pub proof fn clamped_selection_is_valid(s: AppStateView)
    requires
        selection::fits(s.repos),
    ensures
        ({
            let c = s.clamped();
            &&& c.repos == s.repos
            &&& s.repos.len() > 0 ==> c.selected_repo_idx < c.repos.len()
            &&& s.repos.len() > 0 && c.repos[c.selected_repo_idx as int].worktrees.len() > 0
                ==> c.selected() is Some
            &&& s.selected() is Some ==> c == s
            &&& c.clamped() == c
        }),
{
}

// ---------------------------------------------------------------------------
// Loading repositories
// ---------------------------------------------------------------------------

/// A loaded repository takes the place of the one with its path and stays as
/// expanded as that one was; the other repositories stay as they were. A
/// repository that is not tracked comes last.
pub proof fn loading_replaces_one_repository(repos: Seq<RepositoryView>, repo: RepositoryView)
    ensures
        ({
            let i = app::repo_index(repos, repo.config.path);
            let all = app::with_loaded(repos, repo);
            &&& app::is_tracked(all, repo.config.path)
            &&& app::repo_index(all, repo.config.path) == i
            &&& all.len() == if i < repos.len() {
                repos.len()
            } else {
                repos.len() + 1
            }
            &&& all[i].worktrees == repo.worktrees
            &&& all[i].backend == repo.backend
            &&& i < repos.len() ==> all[i].is_expanded == repos[i].is_expanded
            &&& forall|j: int| 0 <= j < repos.len() && j != i ==> #[trigger] all[j] == repos[j]
        }),
{
    let path = repo.config.path;
    let i = app::repo_index(repos, path);
    let all = app::with_loaded(repos, repo);
    app::repo_index_facts(repos, path);
    app::repo_index_facts(all, path);
    paths::same_path_equivalence(path, path, path);
    assert(all[i].config.path == path);
    assert(app::repo_index(all, path) == i) by {
        let k = app::repo_index(all, path);
        if k < i {
            assert(all[k] == repos[k]);
        }
        if i < k {
            assert(!paths::same_path(all[i].config.path, path));
        }
    }
}

/// Pull requests change badges and nothing else.
pub proof fn pull_requests_change_badges_only(
    repos: Seq<RepositoryView>,
    path: Seq<u8>,
    prs: Seq<crate::github::pr::PrInfoView>,
)
    ensures
        ({
            let all = app::with_prs(repos, path, prs);
            &&& all.len() == repos.len()
            &&& forall|r: int|
                0 <= r < repos.len() ==> (#[trigger] all[r]).config == repos[r].config
                    && all[r].is_expanded == repos[r].is_expanded && all[r].backend
                    == repos[r].backend && all[r].display_name == repos[r].display_name
                    && all[r].worktrees.len() == repos[r].worktrees.len()
            &&& forall|r: int, w: int|
                0 <= r < repos.len() && 0 <= w < repos[r].worktrees.len() ==> {
                    let new = #[trigger] all[r].worktrees[w];
                    let old_one = repos[r].worktrees[w];
                    new == (types::WorktreeView { pr: new.pr, ..old_one })
                }
        }),
{
    app::repo_index_facts(repos, path);
}

/// A repository that was added is tracked at once, and its path cannot be added
/// a second time.
pub proof fn added_repository_is_tracked(
    a: AppView,
    d: AddRepoDialogView,
    home: UserDirView,
)
    requires
        d.path_input.len() > 0,
    ensures
        ({
            let path = types::expand_home(d.path_input, home);
            let b = a.repo_added(path);
            &&& app::is_tracked(b.state.repos, path)
            &&& forall|i: int|
                0 <= i < a.state.repos.len() ==> #[trigger] b.state.repos[i] == a.state.repos[i]
            &&& handler::add_repo_submitted(b, d, home) == handler::add_repo_refused(
                b,
                d,
                "This repository is already tracked"@,
            )
        }),
{
    let path = types::expand_home(d.path_input, home);
    let b = a.repo_added(path);
    app::repo_index_facts(b.state.repos, path);
    paths::same_path_equivalence(path, path, path);
    assert(b.state.repos[a.state.repos.len() as int].config.path == path);
}

/// A path below the home directory that is not tracked yet is taken for
/// validation as it lies there, whatever the bytes of the home directory.
pub proof fn path_below_home_is_validated(
    a: AppView,
    d: AddRepoDialogView,
    home: Seq<u8>,
    rest: Seq<char>,
)
    requires
        d.path_input == "~/"@ + rest,
        !paths::is_rooted(utf8::encode_utf8(rest)),
        !app::is_tracked(a.state.repos, paths::join_text_of(home, rest)),
    ensures
        handler::add_repo_submitted(a, d, UserDirView::At(home)) == (
            handler::with_add_repo(
                a,
                Some(AddRepoDialogView { is_adding: true, error: None, ..d }),
            ),
            seq![EffectView::ValidateRepo { path: paths::join_text_of(home, rest) }],
        ),
{
    reveal_strlit("~/");
    types::expansion_joins_what_follows(rest, home);
}

// ---------------------------------------------------------------------------
// Deleting
// ---------------------------------------------------------------------------

/// The main worktree is never offered for deletion; what is offered is the
/// selected worktree, with the backend that owns it.
pub proof fn main_worktree_is_never_offered(s: AppStateView)
    ensures
        handler::delete_question(s) matches Some(d) ==> {
            &&& s.selected() is Some
            &&& !s.selected()->0.is_main
            &&& d.worktree_path == s.selected()->0.path
            &&& d.workspace_name == s.selected()->0.name
            &&& d.backend == s.selected()->0.backend
            &&& d.repo_path == s.repos[s.selected_repo_idx as int].config.path
        },
{
}

/// Asking for the deletion of the selected worktree and confirming removes that
/// worktree, with the backend that owns it.
pub proof fn confirmed_deletion_removes_the_selected_worktree(
    a: AppView,
    key: KeyEvent,
    t: TerminalSnapshotView,
    home: UserDirView,
)
    requires
        a.state.selected() is Some,
        !a.state.selected()->0.is_main,
        handler::confirms(key.code),
    ensures
        ({
            let w = a.state.selected()->0;
            let (asked, _) = handler::acted(a, Action::DeleteWorktree);
            handler::key_handled(asked, key, t, home).1 == seq![
                EffectView::RemoveSession { path: w.path },
                EffectView::RemoveWorktree {
                    backend: w.backend,
                    repo_path: a.state.repos[a.state.selected_repo_idx as int].config.path,
                    worktree_path: w.path,
                    workspace_name: w.name,
                },
            ]
        }),
{
}

/// Whether the effects remove a worktree.
pub open spec fn removes_worktree(effects: Seq<EffectView>) -> bool {
    exists|i: int| 0 <= i < effects.len() && (#[trigger] effects[i]) is RemoveWorktree
}

/// Nothing is removed unasked: a worktree is removed only by a confirming key
/// while the question is open and not yet answered.
pub proof fn nothing_is_removed_unasked(
    a: AppView,
    event: AppEventView,
    t: TerminalSnapshotView,
    home: UserDirView,
)
    ensures
        removes_worktree(a.processed(event, t, home).0.1) ==> {
            &&& event matches AppEventView::Crossterm(EventView::Key(key)) && handler::confirms(
                key.code,
            )
            &&& a.state.delete_worktree_dialog matches Some(d) && !d.is_deleting
        },
{
    if let AppEventView::Crossterm(e) = event {
        terminal_events_remove_nothing_unasked(a, e, t, home);
    }
}

/// The same of what the user does in the terminal.
proof fn terminal_events_remove_nothing_unasked(
    a: AppView,
    e: EventView,
    t: TerminalSnapshotView,
    home: UserDirView,
)
    ensures
        removes_worktree(handler::event_handled(a, e, t, home).1) ==> {
            &&& e matches EventView::Key(key) && handler::confirms(key.code)
            &&& a.state.delete_worktree_dialog matches Some(d) && !d.is_deleting
        },
{
}

// ---------------------------------------------------------------------------
// Dialogs
// ---------------------------------------------------------------------------

/// A dialog that waits for an answer ignores every key.
pub proof fn waiting_dialogs_ignore_keys(
    a: AppView,
    key: KeyEvent,
    t: TerminalSnapshotView,
    home: UserDirView,
)
    requires
        ({
            ||| a.state.delete_worktree_dialog matches Some(d) && d.is_deleting
            ||| a.state.delete_worktree_dialog is None
                && (a.state.add_repo_dialog matches Some(d) && d.is_adding)
            ||| a.state.delete_worktree_dialog is None && a.state.add_repo_dialog is None
                && (a.state.new_worktree_dialog matches Some(d) && d.is_creating)
        }),
    ensures
        handler::key_handled(a, key, t, home) == (a, Seq::<EffectView>::empty()),
{
}

/// Whether the effects send bytes to a session.
pub open spec fn writes_input(effects: Seq<EffectView>) -> bool {
    exists|i: int| 0 <= i < effects.len() && (#[trigger] effects[i]) is WriteInput
}

/// Keys reach a program only from the focused terminal panel with no dialog
/// open.
pub proof fn keys_reach_programs_from_the_terminal_only(
    a: AppView,
    key: KeyEvent,
    t: TerminalSnapshotView,
    home: UserDirView,
)
    ensures
        writes_input(handler::key_handled(a, key, t, home).1) ==> {
            &&& a.state.focus == PanelFocus::Terminal
            &&& a.state.delete_worktree_dialog is None
            &&& a.state.add_repo_dialog is None
            &&& a.state.new_worktree_dialog is None
        },
{
}

/// When a worktree cannot be created, the form comes back as it was submitted,
/// with the reason.
pub proof fn refused_creation_keeps_the_form(
    a: AppView,
    d: NewWorktreeDialogView,
    e: Seq<char>,
    t: TerminalSnapshotView,
    home: UserDirView,
)
    requires
        d.branch_name.len() > 0,
        d.repo_idx < a.state.repos.len(),
        !d.is_creating,
    ensures
        ({
            let (waiting, _) = handler::new_worktree_submitted(a, d);
            let ((b, _), _) = waiting.processed(AppEventView::WorktreeCreateError(e), t, home);
            b.state.new_worktree_dialog == Some(NewWorktreeDialogView { error: Some(e), ..d })
        }),
{
}

/// When a path cannot be tracked, the form comes back as it was submitted, with
/// the reason.
pub proof fn refused_path_keeps_the_form(
    a: AppView,
    d: AddRepoDialogView,
    e: Seq<char>,
    t: TerminalSnapshotView,
    home: UserDirView,
)
    requires
        d.path_input.len() > 0,
        !d.is_adding,
        !app::is_tracked(a.state.repos, types::expand_home(d.path_input, home)),
    ensures
        ({
            let (waiting, _) = handler::add_repo_submitted(a, d, home);
            let ((b, _), _) = waiting.processed(AppEventView::RepoAddError(e), t, home);
            b.state.add_repo_dialog == Some(AddRepoDialogView { error: Some(e), ..d })
        }),
{
}

/// When a worktree cannot be removed, the question comes back with the reason.
pub proof fn refused_removal_keeps_the_question(
    a: AppView,
    d: DeleteWorktreeDialogView,
    key: KeyEvent,
    e: Seq<char>,
    t: TerminalSnapshotView,
    home: UserDirView,
)
    requires
        !d.is_deleting,
        handler::confirms(key.code),
    ensures
        ({
            let (waiting, _) = handler::delete_key_handled(a, d, key);
            let ((b, _), _) = waiting.processed(AppEventView::WorktreeDeleteError(e), t, home);
            b.state.delete_worktree_dialog == Some(
                DeleteWorktreeDialogView { error: Some(e), ..d },
            )
        }),
{
}

/// Escape closes a form that is not waiting, and nothing else happens.
pub proof fn escape_closes_a_form(
    a: AppView,
    key: KeyEvent,
    t: TerminalSnapshotView,
    home: UserDirView,
)
    requires
        key.code == KeyCode::Esc,
        a.state.delete_worktree_dialog is None,
    ensures
        a.state.add_repo_dialog matches Some(d) && !d.is_adding ==> handler::key_handled(
            a,
            key,
            t,
            home,
        ) == (handler::with_add_repo(a, None), Seq::<EffectView>::empty()),
        a.state.add_repo_dialog is None && (a.state.new_worktree_dialog matches Some(d)
            && !d.is_creating) ==> handler::key_handled(a, key, t, home) == (
            handler::with_new_worktree(a, None),
            Seq::<EffectView>::empty(),
        ),
{
}

/// Whether the text fields hold ASCII, with the cursor within them.
pub open spec fn ascii_fields(s: AppStateView) -> bool {
    &&& s.add_repo_dialog matches Some(d) ==> utf8::is_ascii_chars(d.path_input) && d.cursor_pos
        <= d.path_input.len() < usize::MAX
    &&& s.new_worktree_dialog matches Some(d) ==> utf8::is_ascii_chars(d.branch_name)
        && d.cursor_pos <= d.branch_name.len() < usize::MAX
}

/// Whether the event types nothing but ASCII.
pub open spec fn types_ascii(event: AppEventView) -> bool {
    event matches AppEventView::Crossterm(EventView::Key(key)) ==> (key.code matches KeyCode::Char(
        c,
    ) ==> utf8::is_ascii_chars(seq![c]))
}

/// While only ASCII is typed, the application takes every event, and the text
/// fields stay as they should be: up to one more character than before, and
/// the cursor within them.
pub proof fn ascii_typing_is_accepted(
    a: AppView,
    event: AppEventView,
    t: TerminalSnapshotView,
    home: UserDirView,
)
    requires
        ascii_fields(a.state),
        types_ascii(event),
    ensures
        event matches AppEventView::Crossterm(e) ==> handler::accepts_event(a.state, e),
        ({
            let s = a.processed(event, t, home).0.0.state;
            &&& s.add_repo_dialog matches Some(d) ==> utf8::is_ascii_chars(d.path_input)
                && d.cursor_pos <= d.path_input.len()
            &&& s.new_worktree_dialog matches Some(d) ==> utf8::is_ascii_chars(d.branch_name)
                && d.cursor_pos <= d.branch_name.len()
        }),
{
    if let AppEventView::Crossterm(EventView::Key(key)) = event {
        if let Some(d) = a.state.add_repo_dialog {
            if let Some(k) = handler::path_field_key(key.code) {
                edit::ascii_editing_stays_valid(d.path_input, d.cursor_pos as int, k);
                edit::ascii_offsets(d.path_input, d.cursor_pos as int);
            }
        }
        if let Some(d) = a.state.new_worktree_dialog {
            if let Some(k) = handler::name_field_key(key.code) {
                edit::ascii_editing_stays_valid(d.branch_name, d.cursor_pos as int, k);
                edit::ascii_offsets(d.branch_name, d.cursor_pos as int);
            }
        }
    }
}

// ---------------------------------------------------------------------------
// Sizes and the mouse
// ---------------------------------------------------------------------------

/// Frames of one size resize the sessions once.
pub proof fn frames_of_one_size_resize_once(a: AppView, inner: (u16, u16))
    ensures
        ({
            let (b, _) = a.sizes_synced(inner);
            b.sizes_synced(inner) == (b, Seq::<EffectView>::empty())
        }),
{
}

/// A new session is never without rows or columns, and an approximate size is
/// at least 10 rows by 20 columns.
pub proof fn sessions_are_never_tiny(a: AppView)
    ensures
        handler::session_size(a).0 > 0,
        handler::session_size(a).1 > 0,
        forall|cols: u16, rows: u16|
            (#[trigger] handler::approximate_size(cols, rows)).0 >= 10
                && handler::approximate_size(cols, rows).1 >= 20,
{
}

/// Once a frame was drawn, a new session has the exact size of the terminal
/// panel.
pub proof fn sessions_get_the_exact_size(a: AppView, inner: (u16, u16))
    requires
        inner.0 > 0,
        inner.1 > 0,
    ensures
        handler::session_size(a.sizes_synced(inner).0) == (inner.1, inner.0),
{
}

/// A drag selects a cell inside the terminal panel, wherever the mouse is; and
/// the cell under the mouse where it is inside.
pub proof fn drags_stay_in_the_panel(a: AppView, m: MouseEvent)
    requires
        handler::inner_left(a) < handler::inner_right(a),
        1 < handler::inner_bottom(a),
    ensures
        0 <= handler::drag_row(a, m) < handler::inner_bottom(a) - 1,
        0 <= handler::drag_col(a, m) < handler::inner_right(a) - handler::inner_left(a),
        handler::in_terminal(a, m) ==> handler::drag_row(a, m) == m.row - 1 && handler::drag_col(
            a,
            m,
        ) == m.column - handler::inner_left(a),
{
}

/// A place is in the worktree panel or inside the terminal panel, never in
/// both, and neither is in the status bar.
pub proof fn panels_do_not_overlap(a: AppView, m: MouseEvent)
    ensures
        !(handler::in_left_panel(a, m) && handler::in_terminal(a, m)),
        !(handler::in_status_bar(a, m) && handler::in_terminal(a, m)),
{
}

// ---------------------------------------------------------------------------
// Sessions
// ---------------------------------------------------------------------------

/// Whatever happens, no worktree has two sessions.
pub proof fn sessions_stay_single(
    a: AppView,
    event: AppEventView,
    t: TerminalSnapshotView,
    home: UserDirView,
)
    requires
        a.pty_manager.well_formed(),
    ensures
        a.processed(event, t, home).0.0.pty_manager.well_formed(),
{
    match event {
        AppEventView::Crossterm(e) => {
            if let Some(path) = a.state.selected_path() {
                pty::one_session_for_each_worktree(a.pty_manager, path, false);
            }
            if let Some(d) = a.state.delete_worktree_dialog {
                pty::one_session_for_each_worktree(a.pty_manager, d.worktree_path, false);
            }
        },
        AppEventView::WorktreeDeleted { worktree_path, .. } => {
            pty::one_session_for_each_worktree(a.pty_manager, worktree_path, false);
        },
        _ => {},
    }
}

/// Opening a session gives its worktree one and no second one, and the focus.
pub proof fn opened_session_has_the_focus(a: AppView, path: Seq<u8>, select: Option<(u16, u16)>)
    requires
        a.pty_manager.well_formed(),
    ensures
        ({
            let (b, _) = handler::session_tried(a, path, true, select);
            &&& b.pty_manager.well_formed()
            &&& b.pty_manager.has(path)
            &&& b.state.focus == PanelFocus::Terminal
        }),
{
    pty::one_session_for_each_worktree(a.pty_manager, path, true);
    pty::sessions_come_and_go(a.pty_manager, path);
    let opened = a.pty_manager.with_session(path);
    pty::one_session_for_each_worktree(opened, path, true);
    pty::dragging_keeps_sessions(opened, path, true, path);
}

/// The session of a deleted worktree is gone.
pub proof fn deleted_worktree_has_no_session(
    a: AppView,
    repo_path: Seq<u8>,
    worktree_path: Seq<u8>,
    t: TerminalSnapshotView,
    home: UserDirView,
)
    requires
        a.pty_manager.well_formed(),
    ensures
        !a.processed(
            AppEventView::WorktreeDeleted { repo_path, worktree_path },
            t,
            home,
        ).0.0.pty_manager.has(worktree_path),
{
    pty::sessions_come_and_go(a.pty_manager, worktree_path);
}

} // verus!
