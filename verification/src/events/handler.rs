//! How the application reacts to keys, the mouse, pasted text and new sizes.
use vstd::prelude::*;
use vstd::string::StrSliceExecFns;
use vstd::utf8;

use crate::app;
use crate::app::{
    no_effects, one_effect, push_effect, App, AppView, Effect, EffectView, Outcome,
    TerminalSnapshot, TerminalSnapshotView,
};
use crate::edit;
use crate::edit::EditKey;
use crate::events::input::{
    Event, KeyCode, KeyEvent, MouseButton, MouseEvent, MouseEventKind,
};
use crate::events::EventView;
use crate::keybindings;
use crate::keybindings::Action;
use crate::num;
use crate::paths;
use crate::paths::{FilePath, UserDir, UserDirView};
use crate::pty;
use crate::pty::{mode_contains, mode_intersects};
use crate::state::types;
use crate::state::types::{
    AddRepoDialog, AddRepoDialogView, AppState, AppStateView, DeleteWorktreeDialog,
    DeleteWorktreeDialogView, NewWorktreeDialog, NewWorktreeDialogView, PanelFocus,
};
use crate::text;
use crate::text::push_decimal;

verus! {

// ---------------------------------------------------------------------------
// Bytes for the programs in the terminal
// ---------------------------------------------------------------------------

/// An arrow key: in its application form, or in its normal form.
pub open spec fn arrow_bytes(letter: u8, app_cursor: bool) -> Seq<u8> {
    seq![0x1b, if app_cursor {
        0x4fu8
    } else {
        0x5b
    }, letter]
}

/// The escape sequence `ESC [ a b ~`.
pub open spec fn tilde_bytes(a: u8, b: u8) -> Seq<u8> {
    seq![0x1b, 0x5b, a, b, 0x7e]
}

/// The bytes of a function key; none for those that do not exist.
pub open spec fn function_key_bytes(n: u8) -> Seq<u8> {
    if n == 1 {
        seq![0x1b, 0x4f, 0x50]
    } else if n == 2 {
        seq![0x1b, 0x4f, 0x51]
    } else if n == 3 {
        seq![0x1b, 0x4f, 0x52]
    } else if n == 4 {
        seq![0x1b, 0x4f, 0x53]
    } else if n == 5 {
        tilde_bytes(0x31, 0x35)
    } else if n == 6 {
        tilde_bytes(0x31, 0x37)
    } else if n == 7 {
        tilde_bytes(0x31, 0x38)
    } else if n == 8 {
        tilde_bytes(0x31, 0x39)
    } else if n == 9 {
        tilde_bytes(0x32, 0x30)
    } else if n == 10 {
        tilde_bytes(0x32, 0x31)
    } else if n == 11 {
        tilde_bytes(0x32, 0x33)
    } else if n == 12 {
        tilde_bytes(0x32, 0x34)
    } else {
        Seq::empty()
    }
}

/// The bytes that a terminal sends for a key.
pub open spec fn key_bytes(key: KeyEvent, app_cursor: bool) -> Seq<u8> {
    match key.code {
        KeyCode::Char(c) => if key.modifiers.control {
            seq![(c as u8) & 0x1f]
        } else if key.modifiers.alt {
            seq![0x1b, c as u8]
        } else {
            utf8::encode_utf8(seq![c])
        },
        KeyCode::Enter => seq![0x0d],
        KeyCode::Backspace => seq![0x7f],
        KeyCode::Delete => seq![0x1b, 0x5b, 0x33, 0x7e],
        KeyCode::Tab => seq![0x09],
        KeyCode::BackTab => seq![0x1b, 0x5b, 0x5a],
        KeyCode::Esc => seq![0x1b],
        KeyCode::Up => arrow_bytes(0x41, app_cursor),
        KeyCode::Down => arrow_bytes(0x42, app_cursor),
        KeyCode::Right => arrow_bytes(0x43, app_cursor),
        KeyCode::Left => arrow_bytes(0x44, app_cursor),
        KeyCode::Home => seq![0x1b, 0x5b, 0x48],
        KeyCode::End => seq![0x1b, 0x5b, 0x46],
        KeyCode::PageUp => seq![0x1b, 0x5b, 0x35, 0x7e],
        KeyCode::PageDown => seq![0x1b, 0x5b, 0x36, 0x7e],
        KeyCode::Insert => seq![0x1b, 0x5b, 0x32, 0x7e],
        KeyCode::F(n) => function_key_bytes(n),
        _ => Seq::empty(),
    }
}

/// An arrow key.
fn arrow(letter: u8, app_cursor: bool) -> (r: Vec<u8>)
    ensures
        r@ == arrow_bytes(letter, app_cursor),
{
    let r: Vec<u8> = if app_cursor {
        vec![0x1b, 0x4f, letter]
    } else {
        vec![0x1b, 0x5b, letter]
    };
    assert(r@ =~= arrow_bytes(letter, app_cursor));
    r
}

/// A function key.
fn function_key(n: u8) -> (r: Vec<u8>)
    ensures
        r@ == function_key_bytes(n),
{
    let r: Vec<u8> = if n == 1 {
        vec![0x1b, 0x4f, 0x50]
    } else if n == 2 {
        vec![0x1b, 0x4f, 0x51]
    } else if n == 3 {
        vec![0x1b, 0x4f, 0x52]
    } else if n == 4 {
        vec![0x1b, 0x4f, 0x53]
    } else if n == 5 {
        vec![0x1b, 0x5b, 0x31, 0x35, 0x7e]
    } else if n == 6 {
        vec![0x1b, 0x5b, 0x31, 0x37, 0x7e]
    } else if n == 7 {
        vec![0x1b, 0x5b, 0x31, 0x38, 0x7e]
    } else if n == 8 {
        vec![0x1b, 0x5b, 0x31, 0x39, 0x7e]
    } else if n == 9 {
        vec![0x1b, 0x5b, 0x32, 0x30, 0x7e]
    } else if n == 10 {
        vec![0x1b, 0x5b, 0x32, 0x31, 0x7e]
    } else if n == 11 {
        vec![0x1b, 0x5b, 0x32, 0x33, 0x7e]
    } else if n == 12 {
        vec![0x1b, 0x5b, 0x32, 0x34, 0x7e]
    } else {
        Vec::new()
    };
    assert(r@ =~= function_key_bytes(n));
    r
}

/// The bytes that a terminal sends for a character key.
fn char_key(c: char, key: KeyEvent) -> (r: Vec<u8>)
    ensures
        r@ == (if key.modifiers.control {
            seq![(c as u8) & 0x1f]
        } else if key.modifiers.alt {
            seq![0x1b, c as u8]
        } else {
            utf8::encode_utf8(seq![c])
        }),
{
    if key.modifiers.control {
        let low: u8 = #[verifier::truncate] (c as u8);
        let r: Vec<u8> = vec![low & 0x1f];
        assert(r@ =~= seq![(c as u8) & 0x1f]);
        r
    } else if key.modifiers.alt {
        let low: u8 = #[verifier::truncate] (c as u8);
        let r: Vec<u8> = vec![0x1b, low];
        assert(r@ =~= seq![0x1b, c as u8]);
        r
    } else {
        let mut s = String::new();
        s.push(c);
        assert(s@ =~= seq![c]);
        s.as_str().as_bytes_vec()
    }
}

/// The bytes that a terminal sends for a key.
pub fn crossterm_key_to_pty_bytes(key: KeyEvent, app_cursor: bool) -> (r: Vec<u8>)
    ensures
        r@ == key_bytes(key, app_cursor),
{
    let r: Vec<u8> = match key.code {
        KeyCode::Char(c) => {
            return char_key(c, key);
        },
        KeyCode::Up => {
            return arrow(0x41, app_cursor);
        },
        KeyCode::Down => {
            return arrow(0x42, app_cursor);
        },
        KeyCode::Right => {
            return arrow(0x43, app_cursor);
        },
        KeyCode::Left => {
            return arrow(0x44, app_cursor);
        },
        KeyCode::F(n) => {
            return function_key(n);
        },
        KeyCode::Enter => vec![0x0d],
        KeyCode::Backspace => vec![0x7f],
        KeyCode::Delete => vec![0x1b, 0x5b, 0x33, 0x7e],
        KeyCode::Tab => vec![0x09],
        KeyCode::BackTab => vec![0x1b, 0x5b, 0x5a],
        KeyCode::Esc => vec![0x1b],
        KeyCode::Home => vec![0x1b, 0x5b, 0x48],
        KeyCode::End => vec![0x1b, 0x5b, 0x46],
        KeyCode::PageUp => vec![0x1b, 0x5b, 0x35, 0x7e],
        KeyCode::PageDown => vec![0x1b, 0x5b, 0x36, 0x7e],
        KeyCode::Insert => vec![0x1b, 0x5b, 0x32, 0x7e],
        _ => Vec::new(),
    };
    assert(r@ =~= key_bytes(key, app_cursor));
    r
}

// ---------------------------------------------------------------------------
// Sizes
// ---------------------------------------------------------------------------

/// Rows and columns of a session in a terminal of the given columns and rows:
/// 60 % of the width without the border, the height without the border and the
/// status bar, and never less than 10 by 20.
pub open spec fn approximate_size(cols: u16, rows: u16) -> (u16, u16) {
    (
        num::at_least(num::minus(rows as int, 3), 10) as u16,
        num::at_least(num::minus(cols * 60 / 100, 2), 20) as u16,
    )
}

/// Rows and columns of a session in a terminal of the given columns and rows.
pub fn compute_terminal_pty_size(terminal_size: &(u16, u16)) -> (r: (u16, u16))
    ensures
        r == approximate_size(terminal_size.0, terminal_size.1),
{
    let (cols, rows): (u16, u16) = *terminal_size;
    let wide: u32 = cols as u32 * 60 / 100;
    let inner_cols: u16 = wide.saturating_sub(2) as u16;
    let inner_rows: u16 = rows.saturating_sub(3);
    (
        if inner_rows > 10 {
            inner_rows
        } else {
            10
        },
        if inner_cols > 20 {
            inner_cols
        } else {
            20
        },
    )
}

/// Rows and columns for a new session: those of the last frame, else
/// approximately.
pub open spec fn session_size(a: AppView) -> (u16, u16) {
    let (cols, rows) = a.last_synced_inner;
    if cols > 0 && rows > 0 {
        (rows, cols)
    } else {
        approximate_size(a.terminal_size.0, a.terminal_size.1)
    }
}

/// Rows and columns for a new session.
pub fn exact_or_approx_pty_size(app: &App) -> (r: (u16, u16))
    ensures
        r == session_size(app@),
{
    let (cols, rows): (u16, u16) = app.last_synced_inner;
    if cols > 0 && rows > 0 {
        return (rows, cols);
    }
    compute_terminal_pty_size(&app.terminal_size)
}

/// The application after its terminal got a new size.
pub open spec fn resized(a: AppView, cols: u16, rows: u16) -> Outcome {
    let (r, c) = approximate_size(cols, rows);
    (
        AppView { terminal_size: (cols, rows), ..a },
        seq![EffectView::ResizeAll { rows: r, cols: c }],
    )
}

/// Takes the new size of the application's terminal.
pub fn handle_resize(app: &mut App, cols: u16, rows: u16) -> (r: Vec<Effect>)
    ensures
        (final(app)@, app::effects_view(r@)) == resized(old(app)@, cols, rows),
{
    app.terminal_size = (cols, rows);
    let (r, c): (u16, u16) = compute_terminal_pty_size(&(cols, rows));
    one_effect(Effect::ResizeAll { rows: r, cols: c })
}

// ---------------------------------------------------------------------------
// Selected text
// ---------------------------------------------------------------------------

/// The application without selected text in the session of the worktree.
pub open spec fn selection_cleared_for(a: AppView, path: Seq<u8>) -> Outcome {
    if a.pty_manager.has(path) {
        (
            a.with_sessions(a.pty_manager.with_dragging(path, false)),
            seq![EffectView::ClearSelection { path }],
        )
    } else {
        (a, Seq::empty())
    }
}

/// The application without selected text in the session of the selected
/// worktree.
pub open spec fn selection_cleared(a: AppView) -> Outcome {
    match a.state.selected_path() {
        Some(path) => selection_cleared_for(a, path),
        None => (a, Seq::empty()),
    }
}

/// The path of the selected worktree.
fn selected_path(app: &App) -> (r: Option<FilePath>)
    ensures
        paths::opt_view(r) == app@.state.selected_path(),
{
    match app.state.selected_worktree_path() {
        Some(p) => Some(p.clone()),
        None => None,
    }
}

/// Clears the selected text in the session of the worktree.
pub fn clear_selection_for_path(app: &mut App, path: &FilePath) -> (r: Vec<Effect>)
    ensures
        (final(app)@, app::effects_view(r@)) == selection_cleared_for(old(app)@, path@),
{
    if app.pty_manager.set_dragging(path, false) {
        one_effect(Effect::ClearSelection { path: path.clone() })
    } else {
        no_effects()
    }
}

/// Clears the selected text in the session of the selected worktree.
pub fn clear_selection(app: &mut App) -> (r: Vec<Effect>)
    ensures
        (final(app)@, app::effects_view(r@)) == selection_cleared(old(app)@),
{
    match selected_path(app) {
        Some(path) => clear_selection_for_path(app, &path),
        None => no_effects(),
    }
}

// ---------------------------------------------------------------------------
// Pasted text
// ---------------------------------------------------------------------------

/// Whether the terminal has all of the flags.
pub open spec fn has_mode(t: TerminalSnapshotView, flags: u32) -> bool {
    t.mode & flags == flags
}

/// Bytes for the program in the session of the worktree.
pub open spec fn write(path: Seq<u8>, bytes: Seq<u8>) -> EffectView {
    EffectView::WriteInput { path, bytes }
}

/// The application after text was pasted: the session in the focused terminal
/// panel gets it, between markers where its program wants them.
pub open spec fn pasted(a: AppView, content: Seq<char>, t: TerminalSnapshotView) -> Outcome {
    let bytes = utf8::encode_utf8(content);
    match a.state.selected_path() {
        Some(path) if a.state.focus == PanelFocus::Terminal && a.pty_manager.has(path) => (
            a,
            if has_mode(t, pty::BRACKETED_PASTE) {
                seq![
                    EffectView::ResetScroll { path },
                    write(path, seq![0x1b, 0x5b, 0x32, 0x30, 0x30, 0x7e]),
                    write(path, bytes),
                    write(path, seq![0x1b, 0x5b, 0x32, 0x30, 0x31, 0x7e]),
                ]
            } else {
                seq![EffectView::ResetScroll { path }, write(path, bytes)]
            },
        ),
        _ => (a, Seq::empty()),
    }
}

/// Adds bytes for the program in the session of the worktree.
fn push_write(effects: &mut Vec<Effect>, path: &FilePath, bytes: Vec<u8>)
    ensures
        app::effects_view(final(effects)@) == app::effects_view(old(effects)@).push(
            write(path@, bytes@),
        ),
{
    push_effect(effects, Effect::WriteInput { path: path.clone(), bytes })
}

/// Takes pasted text.
pub fn handle_paste(app: &mut App, content: &str, terminal: &TerminalSnapshot) -> (r: Vec<Effect>)
    ensures
        (final(app)@, app::effects_view(r@)) == pasted(old(app)@, content@, terminal@),
{
    let mut effects = no_effects();
    if app.state.focus != PanelFocus::Terminal {
        return effects;
    }
    if let Some(path) = selected_path(app) {
        if app.pty_manager.has_session(&path) {
            push_effect(&mut effects, Effect::ResetScroll { path: path.clone() });
            if mode_contains(terminal.mode, pty::BRACKETED_PASTE) {
                let start: Vec<u8> = vec![0x1b, 0x5b, 0x32, 0x30, 0x30, 0x7e];
                let end: Vec<u8> = vec![0x1b, 0x5b, 0x32, 0x30, 0x31, 0x7e];
                assert(start@ =~= seq![0x1b, 0x5b, 0x32, 0x30, 0x30, 0x7e]);
                assert(end@ =~= seq![0x1b, 0x5b, 0x32, 0x30, 0x31, 0x7e]);
                push_write(&mut effects, &path, start);
                push_write(&mut effects, &path, content.as_bytes_vec());
                push_write(&mut effects, &path, end);
            } else {
                push_write(&mut effects, &path, content.as_bytes_vec());
            }
            assert(app::effects_view(effects@) =~= pasted(old(app)@, content@, terminal@).1);
        }
    }
    effects
}

// ---------------------------------------------------------------------------
// Mouse
// ---------------------------------------------------------------------------

/// The width of the worktree panel: 40 % of the terminal.
pub open spec fn left_width(a: AppView) -> int {
    a.terminal_size.0 * 40 / 100
}

/// The first column inside the terminal panel's border.
pub open spec fn inner_left(a: AppView) -> int {
    left_width(a) + 1
}

/// The first column behind the inside of the terminal panel.
pub open spec fn inner_right(a: AppView) -> int {
    num::minus(a.terminal_size.0 as int, 1)
}

/// The first row below the inside of the terminal panel, whose first row is 1.
pub open spec fn inner_bottom(a: AppView) -> int {
    num::minus(a.terminal_size.1 as int, 2)
}

/// Whether the event is in the worktree panel.
pub open spec fn in_left_panel(a: AppView, m: MouseEvent) -> bool {
    m.column < left_width(a)
}

/// Whether the event is in the status bar.
pub open spec fn in_status_bar(a: AppView, m: MouseEvent) -> bool {
    m.row >= num::minus(a.terminal_size.1 as int, 1)
}

/// Whether the event is inside the terminal panel.
pub open spec fn in_terminal(a: AppView, m: MouseEvent) -> bool {
    inner_left(a) <= m.column < inner_right(a) && 1 <= m.row < inner_bottom(a)
}

/// The application with the focus on a panel.
pub open spec fn focused(a: AppView, focus: PanelFocus) -> AppView {
    a.with_state(AppStateView { focus, ..a.state })
}

/// The application after a click outside the text of the terminal panel.
pub open spec fn panel_clicked(a: AppView, m: MouseEvent) -> Outcome {
    let (next, effects) = selection_cleared(a);
    (
        focused(
            next,
            if in_left_panel(a, m) {
                PanelFocus::WorktreeList
            } else {
                PanelFocus::Terminal
            },
        ),
        effects,
    )
}

/// The application after the left button went down in the text of the terminal
/// panel: it asks for a session, and for a selection to start where the button
/// went down.
pub open spec fn terminal_clicked(a: AppView, m: MouseEvent) -> Outcome {
    match a.state.selected_path() {
        Some(path) => {
            let (rows, cols) = session_size(a);
            (
                a,
                seq![
                    EffectView::OpenSession {
                        path,
                        rows,
                        cols,
                        select: Some(((m.row - 1) as u16, (m.column - inner_left(a)) as u16)),
                    },
                ],
            )
        },
        None => (focused(a, PanelFocus::Terminal), Seq::empty()),
    }
}

/// The row of the terminal panel that a drag reaches: the nearest in it.
pub open spec fn drag_row(a: AppView, m: MouseEvent) -> int {
    num::at_most(num::minus(m.row as int, 1), num::minus(num::minus(inner_bottom(a), 1), 1))
}

/// The column of the terminal panel that a drag reaches: the nearest in it.
pub open spec fn drag_col(a: AppView, m: MouseEvent) -> int {
    num::at_most(
        num::minus(m.column as int, inner_left(a)),
        num::minus(num::minus(inner_right(a), inner_left(a)), 1),
    )
}

/// The application after the mouse was dragged with the left button down.
pub open spec fn dragged(a: AppView, m: MouseEvent) -> Outcome {
    match a.state.selected_path() {
        Some(path) if a.pty_manager.is_dragging(path) => (
            a,
            seq![
                EffectView::UpdateSelection {
                    path,
                    row: drag_row(a, m) as u16,
                    col: drag_col(a, m) as u16,
                },
            ],
        ),
        _ => (a, Seq::empty()),
    }
}

/// The application after the left button went up: selected text is copied,
/// an empty selection is cleared.
pub open spec fn released(a: AppView, t: TerminalSnapshotView) -> Outcome {
    match a.state.selected_path() {
        Some(path) if a.pty_manager.has(path) => {
            let next = a.with_sessions(a.pty_manager.with_dragging(path, false));
            match t.selection {
                Some(content) if content.len() > 0 => (
                    next,
                    seq![EffectView::CopyToClipboard { content }],
                ),
                _ => (next, seq![EffectView::ClearSelection { path }]),
            }
        },
        _ => (a, Seq::empty()),
    }
}

/// A report of the mouse wheel in the SGR form, for a cell counted from 1.
pub open spec fn sgr_report(button: u8, col: int, row: int) -> Seq<u8> {
    utf8::encode_utf8(
        "\x1b[<"@ + text::decimal(button as nat) + seq![';'] + text::decimal(col as nat)
            + seq![';'] + text::decimal(row as nat) + seq!['M'],
    )
}

/// A coordinate in the old form of a mouse report.
pub open spec fn report_coordinate(n: int) -> u8 {
    (32 + num::at_most((n as u8) as int, 223)) as u8
}

/// A report of the mouse wheel in the old form.
pub open spec fn plain_report(button: u8, col: int, row: int) -> Seq<u8> {
    seq![
        0x1b,
        0x5b,
        0x4d,
        (32 + button) as u8,
        report_coordinate(col),
        report_coordinate(row),
    ]
}

/// What the wheel does in the session of the worktree: it is reported to a
/// program that wants reports, it presses an arrow key three times on the
/// alternate screen, else it scrolls by three lines.
pub open spec fn wheel_effects(
    a: AppView,
    path: Seq<u8>,
    m: MouseEvent,
    up: bool,
    t: TerminalSnapshotView,
) -> Seq<EffectView> {
    let col = num::minus(m.column as int, inner_left(a)) + 1;
    let row = num::minus(m.row as int, 1) + 1;
    let button = if up {
        64u8
    } else {
        65u8
    };
    let arrow = seq![0x1b, 0x5b, if up {
        0x41u8
    } else {
        0x42
    }];
    if t.mode & pty::MOUSE_MODE != 0 {
        seq![
            EffectView::ResetScroll { path },
            write(
                path,
                if has_mode(t, pty::SGR_MOUSE) {
                    sgr_report(button, col, row)
                } else {
                    plain_report(button, col, row)
                },
            ),
        ]
    } else if has_mode(t, pty::ALT_SCREEN) {
        seq![
            EffectView::ResetScroll { path },
            write(path, arrow),
            write(path, arrow),
            write(path, arrow),
        ]
    } else if up {
        seq![EffectView::ScrollUp { path, lines: 3 }]
    } else {
        seq![EffectView::ScrollDown { path, lines: 3 }]
    }
}

/// The application after the wheel was turned: nothing outside the focused
/// terminal panel.
pub open spec fn wheeled(a: AppView, m: MouseEvent, up: bool, t: TerminalSnapshotView) -> Outcome {
    if a.state.focus != PanelFocus::Terminal {
        (a, Seq::empty())
    } else {
        let (next, cleared) = selection_cleared(a);
        match a.state.selected_path() {
            Some(path) if a.pty_manager.has(path) => (
                next,
                cleared + wheel_effects(a, path, m, up, t),
            ),
            _ => (next, cleared),
        }
    }
}

/// The application after a mouse event.
pub open spec fn mouse_handled(a: AppView, m: MouseEvent, t: TerminalSnapshotView) -> Outcome {
    match m.kind {
        MouseEventKind::Down(button) => if in_status_bar(a, m) {
            (a, Seq::empty())
        } else if button == MouseButton::Left && !in_left_panel(a, m) && in_terminal(a, m) {
            terminal_clicked(a, m)
        } else {
            panel_clicked(a, m)
        },
        MouseEventKind::Drag(MouseButton::Left) => dragged(a, m),
        MouseEventKind::Up(MouseButton::Left) => released(a, t),
        MouseEventKind::ScrollUp => wheeled(a, m, true, t),
        MouseEventKind::ScrollDown => wheeled(a, m, false, t),
        _ => (a, Seq::empty()),
    }
}

/// Where the mouse is, against the terminal panel.
struct MousePlace {
    left_width: u16,
    inner_left: u16,
    inner_right: u16,
    inner_bottom: u16,
    in_left_panel: bool,
    in_status_bar: bool,
    in_terminal: bool,
}

/// Where the mouse is, against the terminal panel.
fn locate(app: &App, event: MouseEvent) -> (r: MousePlace)
    ensures
        r.left_width == left_width(app@),
        r.inner_left == inner_left(app@),
        r.inner_right == inner_right(app@),
        r.inner_bottom == inner_bottom(app@),
        r.in_left_panel == in_left_panel(app@, event),
        r.in_status_bar == in_status_bar(app@, event),
        r.in_terminal == in_terminal(app@, event),
{
    let (total_cols, total_rows): (u16, u16) = app.terminal_size;
    let left_width: u16 = (total_cols as u32 * 40 / 100) as u16;
    let inner_left: u16 = left_width + 1;
    let inner_right: u16 = total_cols.saturating_sub(1);
    let inner_bottom: u16 = total_rows.saturating_sub(2);
    MousePlace {
        left_width,
        inner_left,
        inner_right,
        inner_bottom,
        in_left_panel: event.column < left_width,
        in_status_bar: event.row >= total_rows.saturating_sub(1),
        in_terminal: event.column >= inner_left && event.column < inner_right && event.row >= 1
            && event.row < inner_bottom,
    }
}

/// A report of the mouse wheel in the SGR form.
fn sgr_wheel_report(button: u8, col: u16, row: u16) -> (r: Vec<u8>)
    ensures
        r@ == sgr_report(button, col as int, row as int),
{
    let mut s = String::new();
    s.append("\x1b[<");
    push_decimal(&mut s, button as u64);
    s.push(';');
    push_decimal(&mut s, col as u64);
    s.push(';');
    push_decimal(&mut s, row as u64);
    s.push('M');
    assert(s@ =~= "\x1b[<"@ + text::decimal(button as nat) + seq![';'] + text::decimal(col as nat)
        + seq![';'] + text::decimal(row as nat) + seq!['M']);
    s.as_str().as_bytes_vec()
}

/// A coordinate in the old form of a mouse report.
fn coordinate(n: u16) -> (r: u8)
    ensures
        r == report_coordinate(n as int),
{
    let low: u8 = #[verifier::truncate] (n as u8);
    if low < 223 {
        32 + low
    } else {
        255
    }
}

/// A report of the mouse wheel in the old form.
fn plain_wheel_report(up: bool, col: u16, row: u16) -> (r: Vec<u8>)
    ensures
        r@ == plain_report(
            if up {
                64
            } else {
                65
            },
            col as int,
            row as int,
        ),
{
    let button: u8 = if up {
        96
    } else {
        97
    };
    let r: Vec<u8> = vec![0x1b, 0x5b, 0x4d, button, coordinate(col), coordinate(row)];
    assert(r@ =~= plain_report(
        if up {
            64
        } else {
            65
        },
        col as int,
        row as int,
    ));
    r
}

/// What the wheel does in the session of the worktree, added to `effects`.
fn push_wheel_effects(
    effects: &mut Vec<Effect>,
    app: &App,
    path: &FilePath,
    event: MouseEvent,
    up: bool,
    terminal: &TerminalSnapshot,
)
    ensures
        app::effects_view(final(effects)@) == app::effects_view(old(effects)@) + wheel_effects(
            app@,
            path@,
            event,
            up,
            terminal@,
        ),
{
    let ghost before = app::effects_view(effects@);
    let place = locate(app, event);
    let col: u16 = event.column.saturating_sub(place.inner_left) + 1;
    let row: u16 = event.row.saturating_sub(1) + 1;
    if mode_intersects(terminal.mode, pty::MOUSE_MODE) {
        push_effect(effects, Effect::ResetScroll { path: path.clone() });
        let bytes: Vec<u8> = if mode_contains(terminal.mode, pty::SGR_MOUSE) {
            sgr_wheel_report(
                if up {
                    64
                } else {
                    65
                },
                col,
                row,
            )
        } else {
            plain_wheel_report(up, col, row)
        };
        push_write(effects, path, bytes);
    } else if mode_contains(terminal.mode, pty::ALT_SCREEN) {
        push_effect(effects, Effect::ResetScroll { path: path.clone() });
        let letter: u8 = if up {
            0x41
        } else {
            0x42
        };
        push_write(effects, path, arrow(letter, false));
        push_write(effects, path, arrow(letter, false));
        push_write(effects, path, arrow(letter, false));
        assert(arrow_bytes(letter, false) =~= seq![0x1b, 0x5b, letter]);
    } else if up {
        push_effect(effects, Effect::ScrollUp { path: path.clone(), lines: 3 });
    } else {
        push_effect(effects, Effect::ScrollDown { path: path.clone(), lines: 3 });
    }
    assert(app::effects_view(effects@) =~= before + wheel_effects(
        app@,
        path@,
        event,
        up,
        terminal@,
    ));
}

/// Takes a turn of the wheel.
fn handle_wheel(app: &mut App, event: MouseEvent, up: bool, terminal: &TerminalSnapshot) -> (r: Vec<
    Effect,
>)
    ensures
        (final(app)@, app::effects_view(r@)) == wheeled(old(app)@, event, up, terminal@),
{
    if app.state.focus != PanelFocus::Terminal {
        return no_effects();
    }
    let ghost before = app@;
    let mut effects = clear_selection(app);
    proof {
        clearing_keeps_the_rest(before);
    }
    if let Some(path) = selected_path(app) {
        assert(before.state.selected_path() == Some(path@));
        assert(selection_cleared(before).0.pty_manager.has(path@) == before.pty_manager.has(path@));
        if app.pty_manager.has_session(&path) {
            push_wheel_effects(&mut effects, app, &path, event, up, terminal);
            assert(wheel_effects(app@, path@, event, up, terminal@) == wheel_effects(
                before,
                path@,
                event,
                up,
                terminal@,
            ));
        }
    }
    effects
}

/// Clearing the selected text changes neither the state nor the sizes, and
/// ends no session.
proof fn clearing_keeps_the_rest(a: AppView)
    ensures
        selection_cleared(a).0.state == a.state,
        selection_cleared(a).0.terminal_size == a.terminal_size,
        selection_cleared(a).0.last_synced_inner == a.last_synced_inner,
        selection_cleared(a).0.config == a.config,
        forall|p: Seq<u8>|
            #[trigger] selection_cleared(a).0.pty_manager.has(p) == a.pty_manager.has(p),
{
    if let Some(path) = a.state.selected_path() {
        assert forall|p: Seq<u8>| #[trigger]
            selection_cleared(a).0.pty_manager.has(p) == a.pty_manager.has(p) by {
            pty::dragging_keeps_sessions(a.pty_manager, path, false, p);
        }
    }
}

/// Takes a press of a mouse button.
fn handle_press(app: &mut App, event: MouseEvent, left: bool) -> (r: Vec<Effect>)
    ensures
        (final(app)@, app::effects_view(r@)) == (if in_status_bar(old(app)@, event) {
            (old(app)@, Seq::empty())
        } else if left && !in_left_panel(old(app)@, event) && in_terminal(old(app)@, event) {
            terminal_clicked(old(app)@, event)
        } else {
            panel_clicked(old(app)@, event)
        }),
{
    let place = locate(app, event);
    if place.in_status_bar {
        return no_effects();
    }
    if left && !place.in_left_panel && place.in_terminal {
        return match selected_path(app) {
            Some(path) => {
                let (rows, cols): (u16, u16) = exact_or_approx_pty_size(app);
                let row: u16 = event.row - 1;
                let col: u16 = event.column - place.inner_left;
                one_effect(Effect::OpenSession { path, rows, cols, select: Some((row, col)) })
            },
            None => {
                app.state.focus = PanelFocus::Terminal;
                no_effects()
            },
        };
    }
    let effects = clear_selection(app);
    app.state.focus = if place.in_left_panel {
        PanelFocus::WorktreeList
    } else {
        PanelFocus::Terminal
    };
    effects
}

/// Takes a drag with the left button.
fn handle_drag(app: &App, event: MouseEvent) -> (r: Vec<Effect>)
    ensures
        (app@, app::effects_view(r@)) == dragged(app@, event),
{
    if let Some(path) = selected_path(app) {
        if app.pty_manager.is_dragging(&path) {
            let place = locate(app, event);
            let row: u16 = event.row.saturating_sub(1);
            let col: u16 = event.column.saturating_sub(place.inner_left);
            let max_row: u16 = place.inner_bottom.saturating_sub(1).saturating_sub(1);
            let max_col: u16 = place.inner_right.saturating_sub(place.inner_left).saturating_sub(1);
            return one_effect(
                Effect::UpdateSelection {
                    path,
                    row: if row < max_row {
                        row
                    } else {
                        max_row
                    },
                    col: if col < max_col {
                        col
                    } else {
                        max_col
                    },
                },
            );
        }
    }
    no_effects()
}

/// Takes a release of the left button.
fn handle_release(app: &mut App, terminal: &TerminalSnapshot) -> (r: Vec<Effect>)
    ensures
        (final(app)@, app::effects_view(r@)) == released(old(app)@, terminal@),
{
    if let Some(path) = selected_path(app) {
        if app.pty_manager.set_dragging(&path, false) {
            if let Some(content) = &terminal.selection {
                if text::to_chars(content.as_str()).len() > 0 {
                    return one_effect(Effect::CopyToClipboard { content: content.clone() });
                }
            }
            return one_effect(Effect::ClearSelection { path });
        }
    }
    no_effects()
}

/// Takes a mouse event.
pub fn handle_mouse(app: &mut App, event: MouseEvent, terminal: &TerminalSnapshot) -> (r: Vec<
    Effect,
>)
    ensures
        (final(app)@, app::effects_view(r@)) == mouse_handled(old(app)@, event, terminal@),
{
    match event.kind {
        MouseEventKind::Down(button) => {
            let left: bool = match button {
                MouseButton::Left => true,
                _ => false,
            };
            handle_press(app, event, left)
        },
        MouseEventKind::Drag(MouseButton::Left) => handle_drag(app, event),
        MouseEventKind::Up(MouseButton::Left) => handle_release(app, terminal),
        MouseEventKind::ScrollUp => handle_wheel(app, event, true, terminal),
        MouseEventKind::ScrollDown => handle_wheel(app, event, false, terminal),
        _ => no_effects(),
    }
}

// ---------------------------------------------------------------------------
// Sessions that were asked for
// ---------------------------------------------------------------------------

/// The application after it was tried to open a session: a worktree with a
/// session gets the focus, and a selection starts where it was asked for.
pub open spec fn session_tried(
    a: AppView,
    path: Seq<u8>,
    opened: bool,
    select: Option<(u16, u16)>,
) -> Outcome {
    let b = if opened {
        focused(a.with_sessions(a.pty_manager.with_session(path)), PanelFocus::Terminal)
    } else {
        a
    };
    match select {
        Some((row, col)) if b.pty_manager.has(path) => (
            b.with_sessions(b.pty_manager.with_dragging(path, true)),
            seq![EffectView::StartSelection { path, row, col }],
        ),
        _ => (b, Seq::empty()),
    }
}

/// Takes the outcome of opening a session.
pub fn session_opened(app: &mut App, path: &FilePath, opened: bool, select: Option<(u16, u16)>) -> (r:
    Vec<Effect>)
    ensures
        (final(app)@, app::effects_view(r@)) == session_tried(old(app)@, path@, opened, select),
{
    if opened {
        app.pty_manager.register(path);
        app.state.focus = PanelFocus::Terminal;
    }
    if let Some((row, col)) = select {
        if app.pty_manager.set_dragging(path, true) {
            return one_effect(Effect::StartSelection { path: path.clone(), row, col });
        }
    }
    no_effects()
}

// ---------------------------------------------------------------------------
// Keys in dialogs
// ---------------------------------------------------------------------------

/// What a key does to the path field.
pub open spec fn path_field_key(code: KeyCode) -> Option<EditKey> {
    match code {
        KeyCode::Backspace => Some(EditKey::Backspace),
        KeyCode::Delete => Some(EditKey::Delete),
        KeyCode::Left => Some(EditKey::Left),
        KeyCode::Right => Some(EditKey::Right),
        KeyCode::Home => Some(EditKey::Home),
        KeyCode::End => Some(EditKey::End),
        KeyCode::Char(c) => Some(EditKey::Char(c)),
        _ => None,
    }
}

/// What a key does to the name field, which knows neither Home nor End.
pub open spec fn name_field_key(code: KeyCode) -> Option<EditKey> {
    match code {
        KeyCode::Home => None,
        KeyCode::End => None,
        _ => path_field_key(code),
    }
}

/// What a key does to the path field.
fn path_field_edit(code: KeyCode) -> (r: Option<EditKey>)
    ensures
        r == path_field_key(code),
{
    match code {
        KeyCode::Backspace => Some(EditKey::Backspace),
        KeyCode::Delete => Some(EditKey::Delete),
        KeyCode::Left => Some(EditKey::Left),
        KeyCode::Right => Some(EditKey::Right),
        KeyCode::Home => Some(EditKey::Home),
        KeyCode::End => Some(EditKey::End),
        KeyCode::Char(c) => Some(EditKey::Char(c)),
        _ => None,
    }
}

/// What a key does to the name field.
fn name_field_edit(code: KeyCode) -> (r: Option<EditKey>)
    ensures
        r == name_field_key(code),
{
    match code {
        KeyCode::Home => None,
        KeyCode::End => None,
        _ => path_field_edit(code),
    }
}

/// Whether the path field can take the key.
pub open spec fn add_repo_accepts(d: AddRepoDialogView, code: KeyCode) -> bool {
    d.is_adding || match path_field_key(code) {
        Some(k) => edit::can_edit(d.path_input, d.cursor_pos as int, k),
        None => true,
    }
}

/// Whether the name field can take the key.
pub open spec fn new_worktree_accepts(d: NewWorktreeDialogView, code: KeyCode) -> bool {
    d.is_creating || match name_field_key(code) {
        Some(k) => edit::can_edit(d.branch_name, d.cursor_pos as int, k),
        None => true,
    }
}

/// The application with another form for a repository to track.
pub open spec fn with_add_repo(a: AppView, d: Option<AddRepoDialogView>) -> AppView {
    a.with_state(AppStateView { add_repo_dialog: d, ..a.state })
}

/// The application with another form for a new worktree.
pub open spec fn with_new_worktree(a: AppView, d: Option<NewWorktreeDialogView>) -> AppView {
    a.with_state(AppStateView { new_worktree_dialog: d, ..a.state })
}

/// The application with another question whether to delete a worktree.
pub open spec fn with_delete(a: AppView, d: Option<DeleteWorktreeDialogView>) -> AppView {
    a.with_state(AppStateView { delete_worktree_dialog: d, ..a.state })
}

/// The application with a reason shown in the form for a repository to track.
pub open spec fn add_repo_refused(a: AppView, d: AddRepoDialogView, why: Seq<char>) -> Outcome {
    (with_add_repo(a, Some(AddRepoDialogView { error: Some(why), ..d })), Seq::empty())
}

/// The application after the form for a repository to track was submitted.
pub open spec fn add_repo_submitted(
    a: AppView,
    d: AddRepoDialogView,
    home: UserDirView,
) -> Outcome {
    if d.path_input.len() == 0 {
        add_repo_refused(a, d, "Path cannot be empty"@)
    } else {
        let path = types::expand_home(d.path_input, home);
        if app::is_tracked(a.state.repos, path) {
            add_repo_refused(a, d, "This repository is already tracked"@)
        } else {
            (
                with_add_repo(a, Some(AddRepoDialogView { is_adding: true, error: None, ..d })),
                seq![EffectView::ValidateRepo { path }],
            )
        }
    }
}

/// The application after a key in the form for a repository to track.
pub open spec fn add_repo_key_handled(
    a: AppView,
    d: AddRepoDialogView,
    key: KeyEvent,
    home: UserDirView,
) -> Outcome {
    if d.is_adding {
        (a, Seq::empty())
    } else if key.code == KeyCode::Esc {
        (with_add_repo(a, None), Seq::empty())
    } else if key.code == KeyCode::Enter {
        add_repo_submitted(a, d, home)
    } else {
        match path_field_key(key.code) {
            Some(k) => {
                let (path_input, cursor) = edit::edited(d.path_input, d.cursor_pos as int, k);
                (
                    with_add_repo(
                        a,
                        Some(AddRepoDialogView { path_input, cursor_pos: cursor as usize, ..d }),
                    ),
                    Seq::empty(),
                )
            },
            None => (a, Seq::empty()),
        }
    }
}

/// The application after the form for a new worktree was submitted.
pub open spec fn new_worktree_submitted(a: AppView, d: NewWorktreeDialogView) -> Outcome {
    if d.branch_name.len() == 0 {
        (
            with_new_worktree(
                a,
                Some(NewWorktreeDialogView { error: Some("Branch name cannot be empty"@), ..d }),
            ),
            Seq::empty(),
        )
    } else if d.repo_idx >= a.state.repos.len() {
        (with_new_worktree(a, None), Seq::empty())
    } else {
        (
            with_new_worktree(
                a,
                Some(NewWorktreeDialogView { is_creating: true, error: None, ..d }),
            ),
            seq![
                EffectView::CreateWorktree {
                    repo_path: a.state.repos[d.repo_idx as int].config.path,
                    name: d.branch_name,
                },
            ],
        )
    }
}

/// The application after a key in the form for a new worktree.
pub open spec fn new_worktree_key_handled(
    a: AppView,
    d: NewWorktreeDialogView,
    key: KeyEvent,
) -> Outcome {
    if d.is_creating {
        (a, Seq::empty())
    } else if key.code == KeyCode::Esc {
        (with_new_worktree(a, None), Seq::empty())
    } else if key.code == KeyCode::Enter {
        new_worktree_submitted(a, d)
    } else {
        match name_field_key(key.code) {
            Some(k) => {
                let (branch_name, cursor) = edit::edited(d.branch_name, d.cursor_pos as int, k);
                (
                    with_new_worktree(
                        a,
                        Some(
                            NewWorktreeDialogView { branch_name, cursor_pos: cursor as usize, ..d },
                        ),
                    ),
                    Seq::empty(),
                )
            },
            None => (a, Seq::empty()),
        }
    }
}

/// Whether the key confirms a deletion.
pub open spec fn confirms(code: KeyCode) -> bool {
    code == KeyCode::Char('y') || code == KeyCode::Char('Y') || code == KeyCode::Enter
}

/// The application after a key in the question whether to delete a worktree:
/// confirmed, its session ends and it is removed; any other key cancels.
pub open spec fn delete_key_handled(
    a: AppView,
    d: DeleteWorktreeDialogView,
    key: KeyEvent,
) -> Outcome {
    if d.is_deleting {
        (a, Seq::empty())
    } else if confirms(key.code) {
        (
            with_delete(
                a,
                Some(DeleteWorktreeDialogView { is_deleting: true, error: None, ..d }),
            ).with_sessions(a.pty_manager.without_session(d.worktree_path)),
            seq![
                EffectView::RemoveSession { path: d.worktree_path },
                EffectView::RemoveWorktree {
                    backend: d.backend,
                    repo_path: d.repo_path,
                    worktree_path: d.worktree_path,
                    workspace_name: d.workspace_name,
                },
            ],
        )
    } else {
        (with_delete(a, None), Seq::empty())
    }
}

/// Whether a repository with the path is tracked.
fn tracks(app: &App, path: &FilePath) -> (r: bool)
    ensures
        r == app::is_tracked(app@.state.repos, path@),
{
    app.repo_position(path).is_some()
}

/// Takes the submission of the form for a repository to track.
fn submit_add_repo(app: &mut App, dialog: AddRepoDialog, home: &UserDir) -> (r: Vec<Effect>)
    ensures
        (final(app)@, app::effects_view(r@)) == add_repo_submitted(
            old(app)@,
            dialog@,
            home@,
        ),
{
    let path = dialog.expanded_path_in(home);
    let mut dialog = dialog;
    let mut effects = no_effects();
    if text::to_chars(dialog.path_input.as_str()).len() == 0 {
        dialog.error = Some("Path cannot be empty".to_owned());
    } else if tracks(app, &path) {
        dialog.error = Some("This repository is already tracked".to_owned());
    } else {
        dialog.is_adding = true;
        dialog.error = None;
        effects = one_effect(Effect::ValidateRepo { path });
    }
    app.state.add_repo_dialog = Some(dialog);
    effects
}

/// Takes a key in the form for a repository to track.
pub fn handle_add_repo_dialog_key(app: &mut App, key: KeyEvent, home: &UserDir) -> (r: Vec<
    Effect,
>)
    requires
        match old(app)@.state.add_repo_dialog {
            Some(d) => add_repo_accepts(d, key.code),
            None => true,
        },
    ensures
        (final(app)@, app::effects_view(r@)) == match old(app)@.state.add_repo_dialog {
            Some(d) => add_repo_key_handled(old(app)@, d, key, home@),
            None => (old(app)@, Seq::empty()),
        },
{
    let mut dialog: AddRepoDialog = match app.state.add_repo_dialog.take() {
        Some(d) => d,
        None => {
            return no_effects();
        },
    };
    if !dialog.is_adding {
        match key.code {
            KeyCode::Esc => {
                return no_effects();
            },
            KeyCode::Enter => {
                return submit_add_repo(app, dialog, home);
            },
            _ => {
                if let Some(k) = path_field_edit(key.code) {
                    edit::edit(&mut dialog.path_input, &mut dialog.cursor_pos, k);
                }
            },
        }
    }
    app.state.add_repo_dialog = Some(dialog);
    no_effects()
}

/// Takes the submission of the form for a new worktree.
fn submit_new_worktree(app: &mut App, dialog: NewWorktreeDialog) -> (r: Vec<Effect>)
    ensures
        (final(app)@, app::effects_view(r@)) == new_worktree_submitted(old(app)@, dialog@),
{
    let mut dialog = dialog;
    if text::to_chars(dialog.branch_name.as_str()).len() == 0 {
        dialog.error = Some("Branch name cannot be empty".to_owned());
        app.state.new_worktree_dialog = Some(dialog);
        return no_effects();
    }
    if dialog.repo_idx >= app.state.repos.len() {
        app.state.new_worktree_dialog = None;
        return no_effects();
    }
    let repo_path: FilePath = app.state.repos[dialog.repo_idx].config.path.clone();
    let name: String = dialog.branch_name.clone();
    dialog.is_creating = true;
    dialog.error = None;
    app.state.new_worktree_dialog = Some(dialog);
    one_effect(Effect::CreateWorktree { repo_path, name })
}

/// Takes a key in the form for a new worktree.
pub fn handle_dialog_key(app: &mut App, key: KeyEvent) -> (r: Vec<Effect>)
    requires
        match old(app)@.state.new_worktree_dialog {
            Some(d) => new_worktree_accepts(d, key.code),
            None => true,
        },
    ensures
        (final(app)@, app::effects_view(r@)) == match old(app)@.state.new_worktree_dialog {
            Some(d) => new_worktree_key_handled(old(app)@, d, key),
            None => (old(app)@, Seq::empty()),
        },
{
    let mut dialog: NewWorktreeDialog = match app.state.new_worktree_dialog.take() {
        Some(d) => d,
        None => {
            return no_effects();
        },
    };
    if !dialog.is_creating {
        match key.code {
            KeyCode::Esc => {
                return no_effects();
            },
            KeyCode::Enter => {
                return submit_new_worktree(app, dialog);
            },
            _ => {
                if let Some(k) = name_field_edit(key.code) {
                    edit::edit(&mut dialog.branch_name, &mut dialog.cursor_pos, k);
                }
            },
        }
    }
    app.state.new_worktree_dialog = Some(dialog);
    no_effects()
}

/// Whether the key confirms a deletion.
fn is_confirmation(code: KeyCode) -> (r: bool)
    ensures
        r == confirms(code),
{
    match code {
        KeyCode::Char(c) => c == 'y' || c == 'Y',
        KeyCode::Enter => true,
        _ => false,
    }
}

/// Takes a key in the question whether to delete a worktree.
pub fn handle_delete_dialog_key(app: &mut App, key: KeyEvent) -> (r: Vec<Effect>)
    ensures
        (final(app)@, app::effects_view(r@)) == match old(app)@.state.delete_worktree_dialog {
            Some(d) => delete_key_handled(old(app)@, d, key),
            None => (old(app)@, Seq::empty()),
        },
{
    let mut dialog: DeleteWorktreeDialog = match app.state.delete_worktree_dialog.take() {
        Some(d) => d,
        None => {
            return no_effects();
        },
    };
    if dialog.is_deleting {
        app.state.delete_worktree_dialog = Some(dialog);
        return no_effects();
    }
    if !is_confirmation(key.code) {
        return no_effects();
    }
    app.pty_manager.remove(&dialog.worktree_path);
    let mut effects = one_effect(Effect::RemoveSession { path: dialog.worktree_path.clone() });
    push_effect(
        &mut effects,
        Effect::RemoveWorktree {
            backend: dialog.backend,
            repo_path: dialog.repo_path.clone(),
            worktree_path: dialog.worktree_path.clone(),
            workspace_name: dialog.workspace_name.clone(),
        },
    );
    dialog.is_deleting = true;
    dialog.error = None;
    assert(app::effects_view(effects@) =~= delete_key_handled(
        old(app)@,
        old(app)@.state.delete_worktree_dialog->0,
        key,
    ).1);
    app.state.delete_worktree_dialog = Some(dialog);
    effects
}

// ---------------------------------------------------------------------------
// Keys in panels
// ---------------------------------------------------------------------------

/// The question whether to delete the selected worktree; none for a main
/// worktree.
pub open spec fn delete_question(s: AppStateView) -> Option<DeleteWorktreeDialogView> {
    match s.selected() {
        Some(w) if !w.is_main => Some(
            DeleteWorktreeDialogView {
                repo_idx: s.selected_repo_idx,
                worktree_idx: s.selected_worktree_idx,
                repo_path: s.repos[s.selected_repo_idx as int].config.path,
                worktree_path: w.path,
                branch_name: w.branch,
                backend: w.backend,
                workspace_name: w.name,
                is_deleting: false,
                error: None,
            },
        ),
        _ => None,
    }
}

/// The application after an action in the worktree panel.
pub open spec fn acted(a: AppView, action: Action) -> Outcome {
    let s = a.state;
    match action {
        Action::Quit => (a.with_state(AppStateView { should_quit: true, ..s }), Seq::empty()),
        Action::MoveDown => (a.with_state(s.moved_down()), Seq::empty()),
        Action::MoveUp => (a.with_state(s.moved_up()), Seq::empty()),
        Action::FocusTerminal => match s.selected_path() {
            Some(path) => {
                let (rows, cols) = session_size(a);
                (a, seq![EffectView::OpenSession { path, rows, cols, select: None }])
            },
            None => (a, Seq::empty()),
        },
        Action::NewWorktree => if s.selected_repo_idx < s.repos.len() {
            (
                with_new_worktree(
                    a,
                    Some(
                        types::new_worktree_form(
                            s.selected_repo_idx,
                            s.repos[s.selected_repo_idx as int].backend,
                        ),
                    ),
                ),
                Seq::empty(),
            )
        } else {
            (a, Seq::empty())
        },
        Action::AddRepo => (with_add_repo(a, Some(types::add_repo_form())), Seq::empty()),
        Action::OpenEditor => match s.selected_path() {
            Some(path) => (a, seq![EffectView::OpenEditor { path }]),
            None => (a, Seq::empty()),
        },
        Action::Refresh => a.refresh_triggered(),
        Action::DeleteWorktree => match delete_question(s) {
            Some(d) => (with_delete(a, Some(d)), Seq::empty()),
            None => (a, Seq::empty()),
        },
        Action::UnfocusTerminal => (a, Seq::empty()),
    }
}

/// The application after a key in the worktree panel.
pub open spec fn list_key_handled(a: AppView, key: KeyEvent) -> Outcome {
    match keybindings::action_for(a.state.keybindings, key.code, key.modifiers) {
        Some(action) => acted(a, action),
        None => (a, Seq::empty()),
    }
}

/// The application after a key in the terminal panel: the key that leaves the
/// panel leaves it, every other key goes to the session.
pub open spec fn terminal_key_handled(
    a: AppView,
    key: KeyEvent,
    t: TerminalSnapshotView,
) -> Outcome {
    let (next, cleared) = selection_cleared(a);
    if keybindings::action_for(a.state.keybindings, key.code, key.modifiers) == Some(
        Action::UnfocusTerminal,
    ) {
        (focused(next, PanelFocus::WorktreeList), cleared)
    } else {
        match a.state.selected_path() {
            Some(path) if a.pty_manager.has(path) => (
                next,
                cleared + seq![
                    EffectView::ResetScroll { path },
                    write(path, key_bytes(key, has_mode(t, pty::APP_CURSOR))),
                ],
            ),
            _ => (next, cleared),
        }
    }
}

/// The question whether to delete the selected worktree.
fn deletion_of_selected(state: &AppState) -> (r: Option<DeleteWorktreeDialog>)
    ensures
        match r {
            Some(d) => Some(d@),
            None => None,
        } == delete_question(state@),
{
    if state.selected_repo_idx >= state.repos.len() {
        return None;
    }
    match state.selected_worktree() {
        Some(wt) => {
            if wt.is_main {
                return None;
            }
            Some(
                DeleteWorktreeDialog {
                    repo_idx: state.selected_repo_idx,
                    worktree_idx: state.selected_worktree_idx,
                    repo_path: state.repos[state.selected_repo_idx].config.path.clone(),
                    worktree_path: wt.path.clone(),
                    branch_name: wt.branch.clone(),
                    backend: wt.backend,
                    workspace_name: wt.name.clone(),
                    is_deleting: false,
                    error: None,
                },
            )
        },
        None => None,
    }
}

/// Performs an action in the worktree panel.
fn act(app: &mut App, action: Action) -> (r: Vec<Effect>)
    ensures
        (final(app)@, app::effects_view(r@)) == acted(old(app)@, action),
{
    match action {
        Action::Quit => {
            app.state.should_quit = true;
        },
        Action::MoveDown => {
            app.state.move_selection_down();
        },
        Action::MoveUp => {
            app.state.move_selection_up();
        },
        Action::FocusTerminal => {
            if let Some(path) = selected_path(app) {
                let (rows, cols): (u16, u16) = exact_or_approx_pty_size(app);
                return one_effect(Effect::OpenSession { path, rows, cols, select: None });
            }
        },
        Action::NewWorktree => {
            let repo_idx: usize = app.state.selected_repo_idx;
            if repo_idx < app.state.repos.len() {
                let dialog = NewWorktreeDialog::new(repo_idx, app.state.repos[repo_idx].backend);
                app.state.new_worktree_dialog = Some(dialog);
            }
        },
        Action::AddRepo => {
            app.state.add_repo_dialog = Some(AddRepoDialog::new());
        },
        Action::OpenEditor => {
            if let Some(path) = selected_path(app) {
                return one_effect(Effect::OpenEditor { path });
            }
        },
        Action::Refresh => {
            return app.trigger_refresh();
        },
        Action::DeleteWorktree => {
            if let Some(dialog) = deletion_of_selected(&app.state) {
                app.state.delete_worktree_dialog = Some(dialog);
            }
        },
        Action::UnfocusTerminal => {},
    }
    no_effects()
}

/// Takes a key in the worktree panel.
pub fn handle_list_key(app: &mut App, key: KeyEvent) -> (r: Vec<Effect>)
    ensures
        (final(app)@, app::effects_view(r@)) == list_key_handled(old(app)@, key),
{
    match app.state.keybindings.get(key.code, key.modifiers) {
        Some(action) => act(app, action),
        None => no_effects(),
    }
}

/// Takes a key in the terminal panel.
pub fn handle_terminal_key(app: &mut App, key: KeyEvent, terminal: &TerminalSnapshot) -> (r: Vec<
    Effect,
>)
    ensures
        (final(app)@, app::effects_view(r@)) == terminal_key_handled(
            old(app)@,
            key,
            terminal@,
        ),
{
    let ghost before = app@;
    let mut effects = clear_selection(app);
    proof {
        clearing_keeps_the_rest(before);
    }
    let unfocuses: bool = match app.state.keybindings.get(key.code, key.modifiers) {
        Some(action) => action == Action::UnfocusTerminal,
        None => false,
    };
    if unfocuses {
        app.state.focus = PanelFocus::WorktreeList;
        return effects;
    }
    if let Some(path) = selected_path(app) {
        assert(before.state.selected_path() == Some(path@));
        assert(selection_cleared(before).0.pty_manager.has(path@) == before.pty_manager.has(path@));
        if app.pty_manager.has_session(&path) {
            let ghost cleared = app::effects_view(effects@);
            push_effect(&mut effects, Effect::ResetScroll { path: path.clone() });
            let app_cursor: bool = mode_contains(terminal.mode, pty::APP_CURSOR);
            let bytes = crossterm_key_to_pty_bytes(key, app_cursor);
            let ghost sent = bytes@;
            push_write(&mut effects, &path, bytes);
            assert(app::effects_view(effects@) =~= cleared + seq![
                EffectView::ResetScroll { path: path@ },
                write(path@, sent),
            ]);
        }
    }
    effects
}

// ---------------------------------------------------------------------------
// Keys and events
// ---------------------------------------------------------------------------

/// The application after a key: an open dialog takes it, else the focused
/// panel.
pub open spec fn key_handled(
    a: AppView,
    key: KeyEvent,
    t: TerminalSnapshotView,
    home: UserDirView,
) -> Outcome {
    if let Some(d) = a.state.delete_worktree_dialog {
        delete_key_handled(a, d, key)
    } else if let Some(d) = a.state.add_repo_dialog {
        add_repo_key_handled(a, d, key, home)
    } else if let Some(d) = a.state.new_worktree_dialog {
        new_worktree_key_handled(a, d, key)
    } else {
        match a.state.focus {
            PanelFocus::WorktreeList => list_key_handled(a, key),
            PanelFocus::Terminal => terminal_key_handled(a, key, t),
        }
    }
}

/// Whether the application can take the key: a text field takes it at a
/// character boundary only.
pub open spec fn accepts_key(s: AppStateView, key: KeyEvent) -> bool {
    if s.delete_worktree_dialog is Some {
        true
    } else if let Some(d) = s.add_repo_dialog {
        add_repo_accepts(d, key.code)
    } else if let Some(d) = s.new_worktree_dialog {
        new_worktree_accepts(d, key.code)
    } else {
        true
    }
}

/// Whether the application can take the event.
pub open spec fn accepts_event(s: AppStateView, event: EventView) -> bool {
    match event {
        EventView::Key(key) => accepts_key(s, key),
        _ => true,
    }
}

/// The application after an event of its terminal.
pub open spec fn event_handled(
    a: AppView,
    event: EventView,
    t: TerminalSnapshotView,
    home: UserDirView,
) -> Outcome {
    match event {
        EventView::Key(key) => key_handled(a, key, t, home),
        EventView::Resize(cols, rows) => resized(a, cols, rows),
        EventView::Mouse(m) => mouse_handled(a, m, t),
        EventView::Paste(content) => pasted(a, content, t),
        _ => (a, Seq::empty()),
    }
}

/// Whether the application can take the event.
pub fn can_handle(app: &App, event: &Event) -> (r: bool)
    ensures
        r == accepts_event(app@.state, event@),
{
    let key: &KeyEvent = match event {
        Event::Key(key) => key,
        _ => {
            return true;
        },
    };
    if app.state.delete_worktree_dialog.is_some() {
        return true;
    }
    if let Some(d) = &app.state.add_repo_dialog {
        return d.is_adding || match path_field_edit(key.code) {
            Some(k) => edit::accepts(d.path_input.as_str(), d.cursor_pos, k),
            None => true,
        };
    }
    if let Some(d) = &app.state.new_worktree_dialog {
        return d.is_creating || match name_field_edit(key.code) {
            Some(k) => edit::accepts(d.branch_name.as_str(), d.cursor_pos, k),
            None => true,
        };
    }
    true
}

/// Takes a key, where `home` is the user's home directory.
pub fn handle_key(
    app: &mut App,
    key: KeyEvent,
    terminal: &TerminalSnapshot,
    home: &UserDir,
) -> (r: Vec<Effect>)
    requires
        accepts_key(old(app)@.state, key),
    ensures
        (final(app)@, app::effects_view(r@)) == key_handled(
            old(app)@,
            key,
            terminal@,
            home@,
        ),
{
    if app.state.delete_worktree_dialog.is_some() {
        return handle_delete_dialog_key(app, key);
    }
    if app.state.add_repo_dialog.is_some() {
        return handle_add_repo_dialog_key(app, key, home);
    }
    if app.state.new_worktree_dialog.is_some() {
        return handle_dialog_key(app, key);
    }
    match app.state.focus {
        PanelFocus::WorktreeList => handle_list_key(app, key),
        PanelFocus::Terminal => handle_terminal_key(app, key, terminal),
    }
}

/// Takes an event of the application's terminal, where `home` is the user's
/// home directory.
pub fn handle_event_in(
    app: &mut App,
    event: Event,
    terminal: &TerminalSnapshot,
    home: &UserDir,
) -> (r: Vec<Effect>)
    requires
        accepts_event(old(app)@.state, event@),
    ensures
        (final(app)@, app::effects_view(r@)) == event_handled(
            old(app)@,
            event@,
            terminal@,
            home@,
        ),
{
    match event {
        Event::Key(key) => handle_key(app, key, terminal, home),
        Event::Resize(cols, rows) => handle_resize(app, cols, rows),
        Event::Mouse(mouse) => handle_mouse(app, mouse, terminal),
        Event::Paste(content) => handle_paste(app, content.as_str(), terminal),
        _ => no_effects(),
    }
}

/// Whether the event submits a path, which may begin with the home directory.
pub open spec fn is_submission(s: AppStateView, event: EventView) -> bool {
    s.delete_worktree_dialog is None && s.add_repo_dialog is Some && (event matches EventView::Key(
        key,
    ) && key.code == KeyCode::Enter)
}

/// Whether the event submits a path, which may begin with the home directory.
fn submits_path(app: &App, event: &Event) -> (r: bool)
    ensures
        r == is_submission(app@.state, event@),
{
    match event {
        Event::Key(key) => match key.code {
            KeyCode::Enter => app.state.delete_worktree_dialog.is_none()
                && app.state.add_repo_dialog.is_some(),
            _ => false,
        },
        _ => false,
    }
}

/// Takes an event of the application's terminal. The user's home directory is
/// looked up where a path is submitted.
pub fn handle_event(app: &mut App, event: Event, terminal: &TerminalSnapshot) -> (r: Vec<Effect>)
    requires
        accepts_event(old(app)@.state, event@),
    ensures
        exists|home: UserDirView|
            (final(app)@, app::effects_view(r@)) == #[trigger] event_handled(
                old(app)@,
                event@,
                terminal@,
                home,
            ) && (is_submission(old(app)@.state, event@) ==> types::is_home(home)),
{
    let home: UserDir = if submits_path(app, &event) {
        types::find_home()
    } else {
        UserDir::Missing
    };
    let ghost before = app@;
    let ghost this = event@;
    let r = handle_event_in(app, event, terminal, &home);
    assert((app@, app::effects_view(r@)) == event_handled(
        before,
        this,
        terminal@,
        home@,
    ));
    r
}

} // verus!
