//! What the mouse does, and which sizes sessions get.
use vstd::prelude::*;
use vstd::utf8;

use crate::app::{AppView, EffectView, TerminalSnapshotView};
use crate::events::handler;
use crate::events::input::{KeyCode, KeyModifiers, MouseButton, MouseEvent, MouseEventKind};
use crate::events::EventView;
use crate::guarantees::typing;
use crate::paths;
use crate::paths::UserDirView;
use crate::pty;
use crate::state::types::{AppStateView, PanelFocus};
use crate::text;

verus! {

/// The application and the effects after a mouse event.
pub open spec fn after_mouse(a: AppView, m: MouseEvent, t: TerminalSnapshotView) -> (
    AppView,
    Seq<EffectView>,
) {
    handler::event_handled(a, EventView::Mouse(m), t, UserDirView::Missing)
}

/// Whether the worktree panel takes `left` columns: 40 % of the width, rounded
/// down.
pub open spec fn has_left_panel(a: AppView, left: int) -> bool {
    100 * left <= 40 * a.terminal_size.0 < 100 * (left + 1)
}

/// Whether the mouse is above the status bar, which takes the last row.
pub open spec fn above_status_bar(a: AppView, m: MouseEvent) -> bool {
    m.row + 1 < a.terminal_size.1
}

/// Whether the mouse is on the text of the terminal panel: inside the border of
/// one cell, right of the worktree panel and above the status bar.
pub open spec fn on_text(a: AppView, left: int, m: MouseEvent) -> bool {
    &&& left < m.column < a.terminal_size.0 - 1
    &&& 0 < m.row < a.terminal_size.1 - 2
}

// ---------------------------------------------------------------------------
// Pressing
// ---------------------------------------------------------------------------

/// A press in the status bar does nothing.
pub proof fn presses_in_the_status_bar_do_nothing(
    a: AppView,
    m: MouseEvent,
    t: TerminalSnapshotView,
)
    requires
        m.kind is Down,
        !above_status_bar(a, m),
    ensures
        after_mouse(a, m, t) == (a, Seq::<EffectView>::empty()),
{
}

/// A press gives the focus to the panel that it falls in, unless it is the left
/// button on the text of the terminal panel; and it ends the selection of text.
pub proof fn presses_focus_the_panel(
    a: AppView,
    left: int,
    m: MouseEvent,
    t: TerminalSnapshotView,
)
    requires
        has_left_panel(a, left),
        m.kind is Down,
        above_status_bar(a, m),
        m.kind != MouseEventKind::Down(MouseButton::Left) || !on_text(a, left, m),
    ensures
        ({
            let (b, effects) = after_mouse(a, m, t);
            &&& m.column < left ==> b.state == (AppStateView {
                focus: PanelFocus::WorktreeList,
                ..a.state
            })
            &&& m.column >= left ==> b.state == (AppStateView {
                focus: PanelFocus::Terminal,
                ..a.state
            })
            &&& match a.state.selected() {
                Some(w) => if a.pty_manager.has(w.path) {
                    effects == seq![EffectView::ClearSelection { path: w.path }]
                        && !b.pty_manager.is_dragging(w.path)
                } else {
                    effects.len() == 0
                },
                None => effects.len() == 0,
            }
        }),
{
    if let Some(w) = a.state.selected() {
        pty::session_is_where_it_is_found(a.pty_manager, w.path);
        assert(a.pty_manager.has(w.path) ==> !a.pty_manager.with_dragging(
            w.path,
            false,
        ).is_dragging(w.path));
    }
}

/// The left button on the text of the terminal panel asks for the session of
/// the selected worktree, in the size of the panel, with a selection that
/// starts at the cell under the mouse, counted from the first cell of the text.
pub proof fn presses_on_text_start_a_selection(
    a: AppView,
    left: int,
    m: MouseEvent,
    t: TerminalSnapshotView,
)
    requires
        has_left_panel(a, left),
        m.kind == MouseEventKind::Down(MouseButton::Left),
        on_text(a, left, m),
    ensures
        ({
            let (b, effects) = after_mouse(a, m, t);
            match a.state.selected() {
                Some(w) => {
                    &&& b == a
                    &&& effects.len() == 1
                    &&& effects[0] matches EffectView::OpenSession { path, rows, cols, select } && {
                        &&& path == w.path
                        &&& a.last_synced_inner.0 > 0 && a.last_synced_inner.1 > 0 ==> (cols, rows)
                            == a.last_synced_inner
                        &&& select matches Some((row, col)) && row + 1 == m.row && left + 1 + col
                            == m.column
                    }
                },
                None => {
                    &&& b == a.with_state(
                        AppStateView { focus: PanelFocus::Terminal, ..a.state },
                    )
                    &&& effects.len() == 0
                },
            }
        }),
{
}

// ---------------------------------------------------------------------------
// Dragging and releasing
// ---------------------------------------------------------------------------

/// Whether `cell` is the one of `count` cells that is nearest to the place
/// `at`, which may lie outside them; the first where there are none.
pub open spec fn is_nearest(cell: int, at: int, count: int) -> bool {
    if at < 0 || count <= 1 {
        cell == 0
    } else if at >= count {
        cell == count - 1
    } else {
        cell == at
    }
}

/// A drag with the left button extends the selection in the session of the
/// selected worktree to the nearest cell of the panel's text, where a selection
/// was started there, and does nothing else.
pub proof fn drags_extend_the_selection(
    a: AppView,
    left: int,
    m: MouseEvent,
    t: TerminalSnapshotView,
)
    requires
        has_left_panel(a, left),
        m.kind == MouseEventKind::Drag(MouseButton::Left),
    ensures
        ({
            let (b, effects) = after_mouse(a, m, t);
            &&& b == a
            &&& match a.state.selected() {
                Some(w) if a.pty_manager.is_dragging(w.path) => {
                    &&& effects.len() == 1
                    &&& effects[0] matches EffectView::UpdateSelection { path, row, col } && {
                        &&& path == w.path
                        &&& is_nearest(row as int, m.row - 1, a.terminal_size.1 - 3)
                        &&& is_nearest(
                            col as int,
                            m.column - left - 1,
                            a.terminal_size.0 - left - 2,
                        )
                    }
                },
                _ => effects.len() == 0,
            }
        }),
{
}

/// Releasing the left button copies the selected text, or clears a selection
/// without text; the selection in the session of the selected worktree ends.
pub proof fn releases_copy_the_selection(a: AppView, m: MouseEvent, t: TerminalSnapshotView)
    requires
        m.kind == MouseEventKind::Up(MouseButton::Left),
    ensures
        ({
            let (b, effects) = after_mouse(a, m, t);
            &&& b == (AppView { pty_manager: b.pty_manager, ..a })
            &&& match a.state.selected() {
                Some(w) if a.pty_manager.has(w.path) => {
                    &&& !b.pty_manager.is_dragging(w.path)
                    &&& effects.len() == 1
                    &&& match t.selection {
                        Some(s) if s.len() > 0 => effects[0] == EffectView::CopyToClipboard {
                            content: s,
                        },
                        _ => effects[0] == EffectView::ClearSelection { path: w.path },
                    }
                },
                _ => b == a && effects.len() == 0,
            }
        }),
{
    if let Some(w) = a.state.selected() {
        pty::session_is_where_it_is_found(a.pty_manager, w.path);
        assert(a.pty_manager.has(w.path) ==> !a.pty_manager.with_dragging(
            w.path,
            false,
        ).is_dragging(w.path));
    }
}

/// Nothing else that the mouse does has any effect.
pub proof fn other_mouse_events_do_nothing(a: AppView, m: MouseEvent, t: TerminalSnapshotView)
    requires
        match m.kind {
            MouseEventKind::Moved | MouseEventKind::ScrollLeft | MouseEventKind::ScrollRight => {
                true
            },
            MouseEventKind::Drag(b) => b != MouseButton::Left,
            MouseEventKind::Up(b) => b != MouseButton::Left,
            MouseEventKind::ScrollUp | MouseEventKind::ScrollDown => a.state.focus
                != PanelFocus::Terminal,
            MouseEventKind::Down(_) => false,
        },
    ensures
        after_mouse(a, m, t) == (a, Seq::<EffectView>::empty()),
{
}

// ---------------------------------------------------------------------------
// The wheel
// ---------------------------------------------------------------------------

/// Whether a turn of the wheel in direction `up` reaches the session at the
/// path.
pub open spec fn wheel_turns(a: AppView, m: MouseEvent, up: bool, path: Seq<u8>) -> bool {
    &&& m.kind == if up {
        MouseEventKind::ScrollUp
    } else {
        MouseEventKind::ScrollDown
    }
    &&& a.state.focus == PanelFocus::Terminal
    &&& a.state.selected() matches Some(w) && w.path == path
    &&& a.pty_manager.has(path)
}

/// A shell that knows nothing of the mouse is scrolled by three lines, in the
/// direction of the wheel.
pub proof fn the_wheel_scrolls_a_shell(
    a: AppView,
    m: MouseEvent,
    up: bool,
    path: Seq<u8>,
    t: TerminalSnapshotView,
)
    requires
        wheel_turns(a, m, up, path),
        t.mode & 8264 == 0,
        t.mode & 4096 == 0,
    ensures
        ({
            let (b, effects) = after_mouse(a, m, t);
            &&& b.state == a.state
            &&& effects.len() == 2
            &&& effects[0] == EffectView::ClearSelection { path }
            &&& up ==> effects[1] == EffectView::ScrollUp { path, lines: 3 }
            &&& !up ==> effects[1] == EffectView::ScrollDown { path, lines: 3 }
        }),
{
    assert(8u32 | 64 | 8192 == 8264) by (bit_vector);
}

/// On the alternate screen, the wheel is three presses of the arrow key of its
/// direction.
pub proof fn the_wheel_presses_arrows_on_the_alternate_screen(
    a: AppView,
    m: MouseEvent,
    up: bool,
    path: Seq<u8>,
    t: TerminalSnapshotView,
    none: KeyModifiers,
)
    requires
        wheel_turns(a, m, up, path),
        t.mode & 8264 == 0,
        t.mode & 4096 != 0,
    ensures
        ({
            let (b, effects) = after_mouse(a, m, t);
            let key = typing::sent(
                if up {
                    KeyCode::Up
                } else {
                    KeyCode::Down
                },
                none,
                false,
            );
            &&& b.state == a.state
            &&& typing::bytes_for(effects, path) == key + key + key
            &&& effects[1] == EffectView::ResetScroll { path }
        }),
{
    let mode = t.mode;
    assert(8u32 | 64 | 8192 == 8264) by (bit_vector);
    assert(mode & 4096 == 4096 || mode & 4096 == 0) by (bit_vector);
    let effects = after_mouse(a, m, t).1;
    let key = typing::sent(
        if up {
            KeyCode::Up
        } else {
            KeyCode::Down
        },
        none,
        false,
    );
    reveal_with_fuel(typing::bytes_for, 6);
    assert(effects.len() == 5);
    assert(key =~= seq![27u8, 91, if up {
        65u8
    } else {
        66
    }]);
    assert(typing::bytes_for(effects, path) =~= key + key + key);
}

/// The place that a report of the wheel names along one axis: the cell under
/// the mouse, where the cell at `first` has the number 1, and no less than 1.
pub open spec fn reported(at: u16, first: int) -> int {
    if at <= first {
        1
    } else {
        at - first + 1
    }
}

/// A coordinate in the old form of a report: one byte, 32 and the coordinate,
/// of which only the last eight bits and no more than 223 count.
pub open spec fn is_old_coordinate(b: u8, n: int) -> bool {
    if n % 256 > 223 {
        b == 255
    } else {
        b == 32 + n % 256
    }
}

/// A program that wants to know of the mouse is told which way the wheel was
/// turned, and at which cell of the panel's text: button 64 for up and 65 for
/// down, in decimals or in the old form, as the program asks.
pub proof fn the_wheel_is_reported(
    a: AppView,
    left: int,
    m: MouseEvent,
    up: bool,
    path: Seq<u8>,
    t: TerminalSnapshotView,
)
    requires
        has_left_panel(a, left),
        wheel_turns(a, m, up, path),
        t.mode & 8264 != 0,
    ensures
        ({
            let (b, effects) = after_mouse(a, m, t);
            let sent = typing::bytes_for(effects, path);
            let button = if up {
                64nat
            } else {
                65
            };
            let col = reported(m.column, left + 1);
            let row = reported(m.row, 1);
            &&& b.state == a.state
            &&& effects.len() == 3
            &&& effects[1] == EffectView::ResetScroll { path }
            &&& effects[2] is WriteInput
            &&& t.mode & 32 != 0 ==> sent == utf8::encode_utf8(
                seq!['\u{1b}', '[', '<'] + text::decimal(button) + seq![';'] + text::decimal(
                    col as nat,
                ) + seq![';'] + text::decimal(row as nat) + seq!['M'],
            )
            &&& t.mode & 32 == 0 ==> {
                &&& sent.len() == 6
                &&& sent[0] == 27 && sent[1] == 91 && sent[2] == 77
                &&& sent[3] == 32 + button
                &&& is_old_coordinate(sent[4], col)
                &&& is_old_coordinate(sent[5], row)
            }
        }),
{
    let mode = t.mode;
    assert(8u32 | 64 | 8192 == 8264) by (bit_vector);
    assert(mode & 32 == 32 || mode & 32 == 0) by (bit_vector);
    let effects = after_mouse(a, m, t).1;
    reveal_with_fuel(typing::bytes_for, 4);
    reveal_strlit("\x1b[<");
    assert("\x1b[<"@ =~= seq!['\u{1b}', '[', '<']);
    assert(effects.len() == 3);
    let sent = typing::bytes_for(effects, path);
    assert(effects[2] matches EffectView::WriteInput { bytes, .. } && sent =~= bytes);
    let col = reported(m.column, left + 1) as u16;
    let row = reported(m.row, 1) as u16;
    assert(col as u8 == col % 256) by (bit_vector);
    assert(row as u8 == row % 256) by (bit_vector);
}

// ---------------------------------------------------------------------------
// Sizes
// ---------------------------------------------------------------------------

/// Before a frame was drawn, a session gets 60 % of the width without the two
/// columns of the border, and the height without the border and the status bar,
/// but at least 20 columns and 10 rows.
pub proof fn sessions_fit_the_terminal_panel(a: AppView)
    requires
        a.last_synced_inner.0 == 0 || a.last_synced_inner.1 == 0,
    ensures
        ({
            let (rows, cols) = handler::session_size(a);
            let (wide, high) = a.terminal_size;
            &&& rows + 3 == high || (rows == 10 && high < 13)
            &&& 100 * (cols + 2) <= 60 * wide < 100 * (cols + 3) || (cols == 20 && 60 * wide < 2300)
        }),
{
}

/// A new size of the terminal resizes every session to what then fits, and
/// changes nothing else.
pub proof fn resizing_resizes_the_sessions(
    a: AppView,
    cols: u16,
    rows: u16,
    t: TerminalSnapshotView,
    home: UserDirView,
)
    ensures
        ({
            let (b, effects) = handler::event_handled(a, EventView::Resize(cols, rows), t, home);
            let unsynced = AppView { last_synced_inner: (0, 0), ..b };
            &&& b == (AppView { terminal_size: (cols, rows), ..a })
            &&& effects.len() == 1
            &&& effects[0] matches EffectView::ResizeAll { rows: r, cols: c } && (r, c)
                == handler::session_size(unsynced)
        }),
{
}

/// A frame in which the terminal panel has another size resizes every session
/// to that size.
pub proof fn frames_resize_the_sessions(a: AppView, inner: (u16, u16))
    ensures
        ({
            let (b, effects) = a.sizes_synced(inner);
            if inner.0 > 0 && inner.1 > 0 && inner != a.last_synced_inner {
                &&& b == (AppView { last_synced_inner: inner, ..a })
                &&& effects == seq![EffectView::ResizeAll { rows: inner.1, cols: inner.0 }]
            } else {
                b == a && effects.len() == 0
            }
        }),
{
}

// ---------------------------------------------------------------------------
// Sessions
// ---------------------------------------------------------------------------

/// When a session was opened, its worktree has a session and the terminal panel
/// the focus, and no other session comes or goes. A selection that was asked
/// for starts at its cell.
pub proof fn opened_sessions_are_selected_in(
    a: AppView,
    path: Seq<u8>,
    select: Option<(u16, u16)>,
    other: Seq<u8>,
)
    ensures
        ({
            let (b, effects) = handler::session_tried(a, path, true, select);
            &&& b.state == (AppStateView { focus: PanelFocus::Terminal, ..a.state })
            &&& b.pty_manager.has(path)
            &&& !paths::same_path(path, other) ==> b.pty_manager.has(other) == a.pty_manager.has(
                other,
            )
            &&& match select {
                Some((row, col)) => b.pty_manager.is_dragging(path) && effects == seq![
                    EffectView::StartSelection { path, row, col },
                ],
                None => effects.len() == 0 && b.pty_manager.is_dragging(path)
                    == a.pty_manager.is_dragging(path),
            }
        }),
{
    let m = a.pty_manager;
    let opened = m.with_session(path);
    pty::session_is_where_it_is_found(m, path);
    pty::session_is_where_it_is_found(m, other);
    pty::session_is_where_it_is_found(opened, path);
    pty::session_is_where_it_is_found(opened, other);
    paths::same_path_equivalence(path, path, path);
    assert(opened.has(path)) by {
        if !m.has(path) {
            assert(opened.sessions[m.sessions.len() as int].path == path);
        }
    }
    if !paths::same_path(path, other) {
        if m.has(other) {
            let i = m.index_of(other);
            assert(opened.sessions[i] == m.sessions[i]);
        }
        if opened.has(other) && !m.has(other) {
            let i = opened.index_of(other);
            if i < m.sessions.len() {
                assert(opened.sessions[i] == m.sessions[i]);
            }
        }
    }
    let marked = opened.with_dragging(path, true);
    pty::dragging_keeps_sessions(opened, path, true, path);
    pty::dragging_keeps_sessions(opened, path, true, other);
}

/// When no session could be opened, the focus stays where it was, and no
/// session comes.
pub proof fn failed_sessions_change_no_focus(
    a: AppView,
    path: Seq<u8>,
    select: Option<(u16, u16)>,
)
    ensures
        ({
            let (b, effects) = handler::session_tried(a, path, false, select);
            &&& b.state == a.state
            &&& b.pty_manager.sessions.len() == a.pty_manager.sessions.len()
            &&& !a.pty_manager.has(path) ==> b == a && effects.len() == 0
        }),
{
    pty::session_is_where_it_is_found(a.pty_manager, path);
}

/// Without a session, the wheel does nothing.
pub proof fn the_wheel_needs_a_session(a: AppView, m: MouseEvent, t: TerminalSnapshotView)
    requires
        m.kind is ScrollUp || m.kind is ScrollDown,
        a.state.selected() matches Some(w) ==> !a.pty_manager.has(w.path),
    ensures
        after_mouse(a, m, t) == (a, Seq::<EffectView>::empty()),
{
    assert(Seq::<EffectView>::empty() + Seq::<EffectView>::empty()
        =~= Seq::<EffectView>::empty());
}

} // verus!
