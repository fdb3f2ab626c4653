//! What comes of opening, filling in and answering the dialogs.
use vstd::prelude::*;
use vstd::utf8;

use crate::app;
use crate::app::{AppView, EffectView, TerminalSnapshotView};
use crate::edit;
use crate::edit::EditKey;
use crate::events::handler;
use crate::events::input::{KeyCode, KeyEvent, KeyModifiers};
use crate::events::EventView;
use crate::keybindings;
use crate::keybindings::Action;
use crate::paths;
use crate::paths::UserDirView;
use crate::pty;
use crate::state::types;
use crate::state::types::{
    AddRepoDialogView, AppStateView, DeleteWorktreeDialogView, NewWorktreeDialogView, PanelFocus,
};

verus! {

/// The application and the effects after a key.
pub open spec fn after_key(
    a: AppView,
    code: KeyCode,
    modifiers: KeyModifiers,
    t: TerminalSnapshotView,
    home: UserDirView,
) -> (AppView, Seq<EffectView>) {
    handler::event_handled(a, EventView::Key(KeyEvent { code, modifiers }), t, home)
}

/// The application after the characters of a text were typed one by one.
pub open spec fn after_typing(
    a: AppView,
    content: Seq<char>,
    modifiers: KeyModifiers,
    t: TerminalSnapshotView,
    home: UserDirView,
) -> AppView
    decreases content.len(),
{
    if content.len() == 0 {
        a
    } else {
        let before = after_typing(a, content.drop_last(), modifiers, t, home);
        after_key(before, KeyCode::Char(content.last()), modifiers, t, home).0
    }
}

/// Whether no dialog is open and keys go to the worktree panel.
pub open spec fn list_listens(a: AppView) -> bool {
    &&& a.state.focus == PanelFocus::WorktreeList
    &&& a.state.delete_worktree_dialog is None
    &&& a.state.add_repo_dialog is None
    &&& a.state.new_worktree_dialog is None
}

/// Whether the key is bound to the action.
pub open spec fn is_bound(
    a: AppView,
    code: KeyCode,
    modifiers: KeyModifiers,
    action: Action,
) -> bool {
    keybindings::action_for(a.state.keybindings, code, modifiers) == Some(action)
}

// ---------------------------------------------------------------------------
// A new worktree
// ---------------------------------------------------------------------------

/// The key for a new worktree opens an empty form for the selected repository
/// with the backend of that repository; without a repository it does nothing.
pub proof fn the_form_is_for_the_selected_repository(
    a: AppView,
    code: KeyCode,
    modifiers: KeyModifiers,
    t: TerminalSnapshotView,
    home: UserDirView,
)
    requires
        list_listens(a),
        is_bound(a, code, modifiers, Action::NewWorktree),
    ensures
        ({
            let (b, effects) = after_key(a, code, modifiers, t, home);
            &&& effects.len() == 0
            &&& b == (AppView { state: b.state, ..a })
            &&& b.state == (AppStateView {
                new_worktree_dialog: b.state.new_worktree_dialog,
                ..a.state
            })
            &&& a.state.selected_repo_idx >= a.state.repos.len()
                ==> b.state.new_worktree_dialog is None
            &&& a.state.selected_repo_idx < a.state.repos.len() ==> {
                b.state.new_worktree_dialog matches Some(d) && {
                    &&& d.repo_idx == a.state.selected_repo_idx
                    &&& d.backend == a.state.repos[a.state.selected_repo_idx as int].backend
                    &&& d.branch_name.len() == 0
                    &&& d.cursor_pos == 0
                    &&& d.error is None
                    &&& !d.is_creating
                }
            }
        }),
{
}

/// Typing ASCII into the empty form makes it the name, with the cursor behind
/// it.
proof fn typing_fills_the_name(
    a: AppView,
    d: NewWorktreeDialogView,
    name: Seq<char>,
    modifiers: KeyModifiers,
    t: TerminalSnapshotView,
    home: UserDirView,
)
    requires
        a.state.delete_worktree_dialog is None,
        a.state.add_repo_dialog is None,
        a.state.new_worktree_dialog == Some(d),
        d.branch_name.len() == 0,
        d.cursor_pos == 0,
        !d.is_creating,
        utf8::is_ascii_chars(name),
        name.len() <= usize::MAX,
    ensures
        after_typing(a, name, modifiers, t, home) == handler::with_new_worktree(
            a,
            Some(
                NewWorktreeDialogView {
                    branch_name: name,
                    cursor_pos: name.len() as usize,
                    ..d
                },
            ),
        ),
    decreases name.len(),
{
    if name.len() == 0 {
        assert(d.branch_name =~= name);
    } else {
        let front = name.drop_last();
        let c = name.last();
        assert(utf8::is_ascii_chars(front)) by {
            assert forall|i: int| 0 <= i < front.len() implies '\0' <= #[trigger] front[i]
                <= '\u{7f}' by {
                assert(front[i] == name[i]);
            }
        }
        typing_fills_the_name(a, d, front, modifiers, t, home);
        edit::ascii_offsets(front, front.len() as int);
        assert(front.take(front.len() as int) =~= front);
        edit::keys_edit_at_the_cursor(front, front.len() as int, c);
        assert(front.insert(front.len() as int, c) =~= name);
    }
}

/// Whoever asks for a new worktree, types a name and presses Enter gets exactly
/// one worktree of that name, in the repository that was selected; the form
/// then waits for the outcome.
pub proof fn the_worktree_is_created_in_the_selected_repository(
    a: AppView,
    code: KeyCode,
    modifiers: KeyModifiers,
    name: Seq<char>,
    t: TerminalSnapshotView,
    home: UserDirView,
)
    requires
        list_listens(a),
        is_bound(a, code, modifiers, Action::NewWorktree),
        a.state.selected_repo_idx < a.state.repos.len(),
        0 < name.len() <= usize::MAX,
        utf8::is_ascii_chars(name),
    ensures
        ({
            let opened = after_key(a, code, modifiers, t, home).0;
            let typed = after_typing(opened, name, modifiers, t, home);
            let (b, effects) = after_key(typed, KeyCode::Enter, modifiers, t, home);
            &&& effects.len() == 1
            &&& effects[0] == EffectView::CreateWorktree {
                repo_path: a.state.repos[a.state.selected_repo_idx as int].config.path,
                name,
            }
            &&& b.state.repos == a.state.repos
            &&& b.state.new_worktree_dialog matches Some(d) && d.is_creating && d.error is None
                && d.branch_name == name && d.repo_idx == a.state.selected_repo_idx
        }),
{
    the_form_is_for_the_selected_repository(a, code, modifiers, t, home);
    let opened = after_key(a, code, modifiers, t, home).0;
    let d = opened.state.new_worktree_dialog->0;
    typing_fills_the_name(opened, d, name, modifiers, t, home);
}

/// A form without a name is not submitted: it stays open and says why.
pub proof fn a_nameless_worktree_is_refused(
    a: AppView,
    d: NewWorktreeDialogView,
    modifiers: KeyModifiers,
    t: TerminalSnapshotView,
    home: UserDirView,
)
    requires
        a.state.delete_worktree_dialog is None,
        a.state.add_repo_dialog is None,
        a.state.new_worktree_dialog == Some(d),
        !d.is_creating,
        d.branch_name.len() == 0,
    ensures
        ({
            let (b, effects) = after_key(a, KeyCode::Enter, modifiers, t, home);
            &&& effects.len() == 0
            &&& b.state.new_worktree_dialog matches Some(e) && e == (NewWorktreeDialogView {
                error: e.error,
                ..d
            }) && (e.error matches Some(why) && why.len() > 0)
            &&& b == handler::with_new_worktree(a, b.state.new_worktree_dialog)
        }),
{
    reveal_strlit("Branch name cannot be empty");
}

// ---------------------------------------------------------------------------
// A repository to track
// ---------------------------------------------------------------------------

/// The key for adding a repository opens an empty form.
pub proof fn the_path_form_starts_empty(
    a: AppView,
    code: KeyCode,
    modifiers: KeyModifiers,
    t: TerminalSnapshotView,
    home: UserDirView,
)
    requires
        list_listens(a),
        is_bound(a, code, modifiers, Action::AddRepo),
    ensures
        ({
            let (b, effects) = after_key(a, code, modifiers, t, home);
            &&& effects.len() == 0
            &&& b == handler::with_add_repo(a, b.state.add_repo_dialog)
            &&& b.state.add_repo_dialog matches Some(d) && d.path_input.len() == 0 && d.cursor_pos
                == 0 && d.error is None && !d.is_adding
        }),
{
}

/// Typing ASCII into the empty form makes it the path, with the cursor behind
/// it.
proof fn typing_fills_the_path(
    a: AppView,
    d: AddRepoDialogView,
    path: Seq<char>,
    modifiers: KeyModifiers,
    t: TerminalSnapshotView,
    home: UserDirView,
)
    requires
        a.state.delete_worktree_dialog is None,
        a.state.add_repo_dialog == Some(d),
        d.path_input.len() == 0,
        d.cursor_pos == 0,
        !d.is_adding,
        utf8::is_ascii_chars(path),
        path.len() <= usize::MAX,
    ensures
        after_typing(a, path, modifiers, t, home) == handler::with_add_repo(
            a,
            Some(AddRepoDialogView { path_input: path, cursor_pos: path.len() as usize, ..d }),
        ),
    decreases path.len(),
{
    if path.len() == 0 {
        assert(d.path_input =~= path);
    } else {
        let front = path.drop_last();
        let c = path.last();
        assert(utf8::is_ascii_chars(front)) by {
            assert forall|i: int| 0 <= i < front.len() implies '\0' <= #[trigger] front[i]
                <= '\u{7f}' by {
                assert(front[i] == path[i]);
            }
        }
        typing_fills_the_path(a, d, front, modifiers, t, home);
        edit::ascii_offsets(front, front.len() as int);
        assert(front.take(front.len() as int) =~= front);
        edit::keys_edit_at_the_cursor(front, front.len() as int, c);
        assert(front.insert(front.len() as int, c) =~= path);
    }
}

/// Whoever asks to add a repository, types a path and presses Enter has exactly
/// that path validated, unless a repository with it is tracked: then nothing
/// happens, and the form says why. A path that does not begin with `~` is taken
/// byte by byte.
pub proof fn the_typed_path_is_validated(
    a: AppView,
    code: KeyCode,
    modifiers: KeyModifiers,
    typed: Seq<char>,
    t: TerminalSnapshotView,
    home: UserDirView,
)
    requires
        list_listens(a),
        is_bound(a, code, modifiers, Action::AddRepo),
        0 < typed.len() <= usize::MAX,
        typed[0] != '~',
        utf8::is_ascii_chars(typed),
    ensures
        ({
            let opened = after_key(a, code, modifiers, t, home).0;
            let filled = after_typing(opened, typed, modifiers, t, home);
            let (b, effects) = after_key(filled, KeyCode::Enter, modifiers, t, home);
            let path = utf8::encode_utf8(typed);
            if exists|i: int|
                0 <= i < a.state.repos.len() && paths::same_path(
                    (#[trigger] a.state.repos[i]).config.path,
                    path,
                ) {
                &&& effects.len() == 0
                &&& b.state.add_repo_dialog matches Some(d) && !d.is_adding && d.path_input
                    == typed && d.error is Some
            } else {
                &&& effects.len() == 1
                &&& effects[0] == EffectView::ValidateRepo { path }
                &&& b.state.add_repo_dialog matches Some(d) && d.is_adding && d.path_input == typed
                    && d.error is None
            }
        }),
{
    the_path_form_starts_empty(a, code, modifiers, t, home);
    let opened = after_key(a, code, modifiers, t, home).0;
    typing_fills_the_path(opened, opened.state.add_repo_dialog->0, typed, modifiers, t, home);
    types::other_input_is_taken_as_it_is(typed, home);
    app::tracked_means_some_repository(a.state.repos, utf8::encode_utf8(typed));
}

/// A form without a path is not submitted: it stays open and says why.
pub proof fn an_empty_path_is_refused(
    a: AppView,
    d: AddRepoDialogView,
    modifiers: KeyModifiers,
    t: TerminalSnapshotView,
    home: UserDirView,
)
    requires
        a.state.delete_worktree_dialog is None,
        a.state.add_repo_dialog == Some(d),
        !d.is_adding,
        d.path_input.len() == 0,
    ensures
        ({
            let (b, effects) = after_key(a, KeyCode::Enter, modifiers, t, home);
            &&& effects.len() == 0
            &&& b.state.add_repo_dialog matches Some(e) && e == (AddRepoDialogView {
                error: e.error,
                ..d
            }) && (e.error matches Some(why) && why.len() > 0)
            &&& b == handler::with_add_repo(a, b.state.add_repo_dialog)
        }),
{
    reveal_strlit("Path cannot be empty");
}

// ---------------------------------------------------------------------------
// Editing in a form
// ---------------------------------------------------------------------------

/// The keys of a text field do in a form what they do in any text field, and
/// have no effects: the path form knows all of them, the name form neither Home
/// nor End.
pub proof fn forms_are_text_fields(
    a: AppView,
    code: KeyCode,
    key: EditKey,
    modifiers: KeyModifiers,
    t: TerminalSnapshotView,
    home: UserDirView,
)
    requires
        a.state.delete_worktree_dialog is None,
        match key {
            EditKey::Backspace => code is Backspace,
            EditKey::Delete => code is Delete,
            EditKey::Left => code is Left,
            EditKey::Right => code is Right,
            EditKey::Home => code is Home,
            EditKey::End => code is End,
            EditKey::Char(c) => code == KeyCode::Char(c),
        },
    ensures
        (a.state.add_repo_dialog matches Some(d) && !d.is_adding) ==> {
            let d = a.state.add_repo_dialog->0;
            let (content, cursor) = edit::edited(d.path_input, d.cursor_pos as int, key);
            after_key(a, code, modifiers, t, home) == (
                handler::with_add_repo(
                    a,
                    Some(
                        AddRepoDialogView { path_input: content, cursor_pos: cursor as usize, ..d },
                    ),
                ),
                Seq::<EffectView>::empty(),
            )
        },
        a.state.add_repo_dialog is None && (a.state.new_worktree_dialog matches Some(d)
            && !d.is_creating) ==> {
            let d = a.state.new_worktree_dialog->0;
            let (content, cursor) = if key is Home || key is End {
                (d.branch_name, d.cursor_pos as int)
            } else {
                edit::edited(d.branch_name, d.cursor_pos as int, key)
            };
            after_key(a, code, modifiers, t, home) == (
                handler::with_new_worktree(
                    a,
                    Some(
                        NewWorktreeDialogView {
                            branch_name: content,
                            cursor_pos: cursor as usize,
                            ..d
                        },
                    ),
                ),
                Seq::<EffectView>::empty(),
            )
        },
{
}

/// Keys that a text field does not know do nothing in a form.
pub proof fn forms_ignore_other_keys(
    a: AppView,
    code: KeyCode,
    modifiers: KeyModifiers,
    t: TerminalSnapshotView,
    home: UserDirView,
)
    requires
        a.state.delete_worktree_dialog is None,
        a.state.add_repo_dialog is Some || a.state.new_worktree_dialog is Some,
        match code {
            KeyCode::Backspace | KeyCode::Delete | KeyCode::Left | KeyCode::Right | KeyCode::Home
            | KeyCode::End | KeyCode::Char(_) | KeyCode::Enter | KeyCode::Esc => false,
            _ => true,
        },
    ensures
        after_key(a, code, modifiers, t, home) == (a, Seq::<EffectView>::empty()),
{
}

// ---------------------------------------------------------------------------
// Deleting a worktree
// ---------------------------------------------------------------------------

/// The key for deleting asks about the selected worktree, shows its branch, and
/// removes nothing yet; about a main worktree it asks nothing.
pub proof fn the_question_is_about_the_selected_worktree(
    a: AppView,
    code: KeyCode,
    modifiers: KeyModifiers,
    t: TerminalSnapshotView,
    home: UserDirView,
)
    requires
        list_listens(a),
        is_bound(a, code, modifiers, Action::DeleteWorktree),
    ensures
        ({
            let (b, effects) = after_key(a, code, modifiers, t, home);
            &&& effects.len() == 0
            &&& b == handler::with_delete(a, b.state.delete_worktree_dialog)
            &&& match a.state.selected() {
                Some(w) if !w.is_main => b.state.delete_worktree_dialog matches Some(d) && {
                    &&& d.repo_idx == a.state.selected_repo_idx
                    &&& d.worktree_idx == a.state.selected_worktree_idx
                    &&& d.repo_path == a.state.repos[a.state.selected_repo_idx as int].config.path
                    &&& d.worktree_path == w.path
                    &&& d.branch_name == w.branch
                    &&& d.workspace_name == w.name
                    &&& d.backend == w.backend
                    &&& !d.is_deleting
                    &&& d.error is None
                },
                _ => b.state.delete_worktree_dialog is None,
            }
        }),
{
}

/// Only `y`, `Y` and Enter confirm: the session of the worktree ends and the
/// worktree is removed, and the question waits for the outcome. Every other key
/// closes the question, and nothing is removed.
pub proof fn only_a_confirming_key_removes(
    a: AppView,
    d: DeleteWorktreeDialogView,
    code: KeyCode,
    modifiers: KeyModifiers,
    t: TerminalSnapshotView,
    home: UserDirView,
)
    requires
        a.state.delete_worktree_dialog == Some(d),
        !d.is_deleting,
    ensures
        ({
            let (b, effects) = after_key(a, code, modifiers, t, home);
            if code == KeyCode::Char('y') || code == KeyCode::Char('Y') || code == KeyCode::Enter {
                &&& effects.len() == 2
                &&& effects[0] == EffectView::RemoveSession { path: d.worktree_path }
                &&& effects[1] == EffectView::RemoveWorktree {
                    backend: d.backend,
                    repo_path: d.repo_path,
                    worktree_path: d.worktree_path,
                    workspace_name: d.workspace_name,
                }
                &&& b.state == (AppStateView {
                    delete_worktree_dialog: Some(
                        DeleteWorktreeDialogView { is_deleting: true, error: None, ..d },
                    ),
                    ..a.state
                })
                &&& forall|other: Seq<u8>|
                    !paths::same_path(d.worktree_path, other) ==> #[trigger] b.pty_manager.has(
                        other,
                    ) == a.pty_manager.has(other)
            } else {
                &&& effects.len() == 0
                &&& b == a.with_state(AppStateView { delete_worktree_dialog: None, ..a.state })
            }
        }),
{
    let b = after_key(a, code, modifiers, t, home).0;
    assert forall|other: Seq<u8>| !paths::same_path(d.worktree_path, other) implies
        #[trigger] b.pty_manager.has(other) == a.pty_manager.has(other) by {
        pty::removing_ends_one_session(a.pty_manager, d.worktree_path, other);
    }
}

// ---------------------------------------------------------------------------
// Other actions
// ---------------------------------------------------------------------------

/// What the other keys of the worktree panel do: quit, move the selection, ask
/// for the session or the editor of the selected worktree, refresh.
pub proof fn bound_keys_do_what_they_are_bound_to(
    a: AppView,
    code: KeyCode,
    modifiers: KeyModifiers,
    t: TerminalSnapshotView,
    home: UserDirView,
)
    requires
        list_listens(a),
    ensures
        ({
            let (b, effects) = after_key(a, code, modifiers, t, home);
            &&& is_bound(a, code, modifiers, Action::Quit) ==> b == a.with_state(
                AppStateView { should_quit: true, ..a.state },
            ) && effects.len() == 0
            &&& is_bound(a, code, modifiers, Action::MoveDown) ==> b == a.with_state(
                a.state.moved_down(),
            ) && effects.len() == 0
            &&& is_bound(a, code, modifiers, Action::MoveUp) ==> b == a.with_state(
                a.state.moved_up(),
            ) && effects.len() == 0
            &&& is_bound(a, code, modifiers, Action::OpenEditor) ==> b == a
                && match a.state.selected() {
                Some(w) => effects == seq![EffectView::OpenEditor { path: w.path }],
                None => effects.len() == 0,
            }
            &&& is_bound(a, code, modifiers, Action::FocusTerminal) ==> b == a
                && match a.state.selected() {
                Some(w) => effects.len() == 1 && (effects[0] matches EffectView::OpenSession {
                    path,
                    rows,
                    cols,
                    select,
                } && path == w.path && (rows, cols) == handler::session_size(a) && select is None),
                None => effects.len() == 0,
            }
            &&& is_bound(a, code, modifiers, Action::Refresh) ==> {
                &&& b == a.with_state(AppStateView { is_refreshing: true, ..a.state })
                &&& a.state.is_refreshing ==> effects.len() == 0
                &&& !a.state.is_refreshing ==> effects == seq![EffectView::StartRefresh]
            }
            &&& is_bound(a, code, modifiers, Action::UnfocusTerminal) ==> b == a && effects.len()
                == 0
            &&& keybindings::action_for(a.state.keybindings, code, modifiers) is None ==> b == a
                && effects.len() == 0
        }),
{
}

/// A form with a name asks for a worktree of that name in the repository that it
/// is for, exactly once; where that repository is gone, the form closes.
pub proof fn filled_forms_ask_for_their_worktree(
    a: AppView,
    d: NewWorktreeDialogView,
    modifiers: KeyModifiers,
    t: TerminalSnapshotView,
    home: UserDirView,
)
    requires
        a.state.delete_worktree_dialog is None,
        a.state.add_repo_dialog is None,
        a.state.new_worktree_dialog == Some(d),
        !d.is_creating,
        d.branch_name.len() > 0,
    ensures
        ({
            let (b, effects) = after_key(a, KeyCode::Enter, modifiers, t, home);
            &&& b == (AppView { state: b.state, ..a })
            &&& b.state == (AppStateView {
                new_worktree_dialog: b.state.new_worktree_dialog,
                ..a.state
            })
            &&& if d.repo_idx < a.state.repos.len() {
                &&& effects.len() == 1
                &&& effects[0] == EffectView::CreateWorktree {
                    repo_path: a.state.repos[d.repo_idx as int].config.path,
                    name: d.branch_name,
                }
                &&& b.state.new_worktree_dialog == Some(
                    NewWorktreeDialogView { is_creating: true, error: None, ..d },
                )
            } else {
                effects.len() == 0 && b.state.new_worktree_dialog is None
            }
        }),
{
}

/// A form with a path has what the path stands for validated, exactly once,
/// unless some repository with that path is tracked.
pub proof fn filled_forms_ask_for_their_path(
    a: AppView,
    d: AddRepoDialogView,
    modifiers: KeyModifiers,
    t: TerminalSnapshotView,
    home: UserDirView,
)
    requires
        a.state.delete_worktree_dialog is None,
        a.state.add_repo_dialog == Some(d),
        !d.is_adding,
        d.path_input.len() > 0,
    ensures
        ({
            let (b, effects) = after_key(a, KeyCode::Enter, modifiers, t, home);
            let path = types::expand_home(d.path_input, home);
            &&& b == (AppView { state: b.state, ..a })
            &&& b.state == (AppStateView { add_repo_dialog: b.state.add_repo_dialog, ..a.state })
            &&& if exists|i: int|
                0 <= i < a.state.repos.len() && paths::same_path(
                    (#[trigger] a.state.repos[i]).config.path,
                    path,
                ) {
                &&& effects.len() == 0
                &&& b.state.add_repo_dialog matches Some(e) && e == (AddRepoDialogView {
                    error: e.error,
                    ..d
                }) && e.error is Some
            } else {
                &&& effects == seq![EffectView::ValidateRepo { path }]
                &&& b.state.add_repo_dialog == Some(
                    AddRepoDialogView { is_adding: true, error: None, ..d },
                )
            }
        }),
{
    app::tracked_means_some_repository(
        a.state.repos,
        types::expand_home(d.path_input, home),
    );
}

/// Everything but a key is always taken; a key is taken wherever no form is open
/// for it, and in a form wherever the cursor stands between two characters.
pub proof fn events_are_accepted(s: AppStateView, key: KeyEvent, event: EventView, k: int)
    ensures
        !(event is Key) ==> handler::accepts_event(s, event),
        s.delete_worktree_dialog is Some || (s.add_repo_dialog is None && s.new_worktree_dialog is
            None) ==> handler::accepts_event(s, EventView::Key(key)),
        !(key.code is Backspace) && (s.add_repo_dialog matches Some(d) && 0 <= k
            <= d.path_input.len() && d.cursor_pos == edit::byte_len(d.path_input.take(k)))
            ==> handler::accepts_event(s, EventView::Key(key)),
        !(key.code is Backspace) && s.add_repo_dialog is None && (s.new_worktree_dialog matches Some(
            d,
        ) && 0 <= k <= d.branch_name.len() && d.cursor_pos == edit::byte_len(d.branch_name.take(k)))
            ==> handler::accepts_event(s, EventView::Key(key)),
{
    if let Some(d) = s.add_repo_dialog {
        if 0 <= k <= d.path_input.len() {
            if let KeyCode::Char(c) = key.code {
                edit::keys_edit_at_the_cursor(d.path_input, k, c);
            } else {
                edit::keys_edit_at_the_cursor(d.path_input, k, 'x');
            }
        }
    }
    if let Some(d) = s.new_worktree_dialog {
        if 0 <= k <= d.branch_name.len() {
            if let KeyCode::Char(c) = key.code {
                edit::keys_edit_at_the_cursor(d.branch_name, k, c);
            } else {
                edit::keys_edit_at_the_cursor(d.branch_name, k, 'x');
            }
        }
    }
}

} // verus!
