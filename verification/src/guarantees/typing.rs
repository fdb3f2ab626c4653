//! What typed keys and pasted text send to the shell of the selected worktree.
use vstd::prelude::*;
use vstd::utf8;

use crate::app::{AppView, EffectView, TerminalSnapshotView};
use crate::events::handler;
use crate::events::input::{KeyCode, KeyEvent, KeyModifiers};
use crate::events::EventView;
use crate::keybindings;
use crate::keybindings::Action;
use crate::paths::UserDirView;
use crate::pty;
use crate::state::types::{AppStateView, PanelFocus};

verus! {

// ---------------------------------------------------------------------------
// Bytes of keys
// ---------------------------------------------------------------------------

/// The bytes of a key with the given modifiers.
pub open spec fn sent(code: KeyCode, modifiers: KeyModifiers, app_cursor: bool) -> Seq<u8> {
    handler::key_bytes(KeyEvent { code, modifiers }, app_cursor)
}

/// Whether the key is an arrow key.
pub open spec fn is_arrow(code: KeyCode) -> bool {
    code is Up || code is Down || code is Right || code is Left
}

/// An arrow key is an escape, `O` in application mode and `[` in normal mode,
/// and then `A`, `B`, `C` or `D` for up, down, right and left, so that the
/// direction does not depend on the mode.
pub proof fn arrow_keys_keep_their_direction(modifiers: KeyModifiers, app_cursor: bool)
    ensures
        forall|code: KeyCode|
            is_arrow(code) ==> {
                let b = #[trigger] sent(code, modifiers, app_cursor);
                &&& b.len() == 3
                &&& b[0] == 27
                &&& app_cursor ==> b[1] == 79
                &&& !app_cursor ==> b[1] == 91
                &&& b[2] == sent(code, modifiers, !app_cursor)[2]
            },
        sent(KeyCode::Up, modifiers, app_cursor).last() == 65,
        sent(KeyCode::Down, modifiers, app_cursor).last() == 66,
        sent(KeyCode::Right, modifiers, app_cursor).last() == 67,
        sent(KeyCode::Left, modifiers, app_cursor).last() == 68,
{
}

/// No key but the arrows is sent differently in application mode.
pub proof fn only_arrows_know_the_mode(code: KeyCode, modifiers: KeyModifiers)
    requires
        !is_arrow(code),
    ensures
        sent(code, modifiers, true) == sent(code, modifiers, false),
{
}

/// Modifiers change what characters send, and no other key.
pub proof fn modifiers_change_characters_only(
    code: KeyCode,
    m1: KeyModifiers,
    m2: KeyModifiers,
    app_cursor: bool,
)
    ensures
        !(code is Char) ==> sent(code, m1, app_cursor) == sent(code, m2, app_cursor),
        m1.control == m2.control && m1.alt == m2.alt ==> sent(code, m1, app_cursor) == sent(
            code,
            m2,
            app_cursor,
        ),
        m1.control && m2.control ==> sent(code, m1, app_cursor) == sent(code, m2, app_cursor),
{
}

/// A character that is typed without control and alt arrives as it is: what is
/// sent reads back as that character, and an ASCII character is its own byte.
pub proof fn typed_characters_arrive(c: char, modifiers: KeyModifiers, app_cursor: bool)
    requires
        !modifiers.control,
        !modifiers.alt,
    ensures
        utf8::valid_utf8(sent(KeyCode::Char(c), modifiers, app_cursor)),
        utf8::decode_utf8(sent(KeyCode::Char(c), modifiers, app_cursor)) == seq![c],
        c <= '\u{7f}' ==> sent(KeyCode::Char(c), modifiers, app_cursor) == seq![c as u8],
{
    let one = seq![c];
    utf8::encode_utf8_valid_utf8(one);
    utf8::encode_utf8_decode_utf8(one);
    if c <= '\u{7f}' {
        assert(one[0] == c);
        utf8::is_ascii_chars_encode_utf8(one);
        assert(utf8::encode_utf8(one) =~= seq![c as u8]);
    }
}

/// Control with a character is one control byte: the character's code modulo
/// 32, so that control with `a` is 1, whether or not it is shifted.
pub proof fn control_sends_a_control_byte(c: char, modifiers: KeyModifiers, app_cursor: bool)
    requires
        modifiers.control,
    ensures
        sent(KeyCode::Char(c), modifiers, app_cursor).len() == 1,
        sent(KeyCode::Char(c), modifiers, app_cursor)[0] as int == (c as u32) % 32,
{
    let u = c as u32;
    assert((u as u8) & 0x1f == u % 32) by (bit_vector);
}

/// Alt with a character is an escape and then the character's last eight bits:
/// for ASCII, what the character sends without alt.
pub proof fn alt_sends_an_escape_first(c: char, modifiers: KeyModifiers, app_cursor: bool)
    requires
        modifiers.alt,
        !modifiers.control,
    ensures
        sent(KeyCode::Char(c), modifiers, app_cursor).len() == 2,
        sent(KeyCode::Char(c), modifiers, app_cursor)[0] == 27,
        sent(KeyCode::Char(c), modifiers, app_cursor)[1] as int == (c as u32) % 256,
        c <= '\u{7f}' ==> sent(KeyCode::Char(c), modifiers, app_cursor) == seq![27u8] + sent(
            KeyCode::Char(c),
            KeyModifiers { alt: false, ..modifiers },
            app_cursor,
        ),
{
    let u = c as u32;
    assert((u as u8) as u32 == u % 256) by (bit_vector);
    if c <= '\u{7f}' {
        typed_characters_arrive(c, KeyModifiers { alt: false, ..modifiers }, app_cursor);
        assert(seq![27u8] + seq![c as u8] =~= seq![27u8, c as u8]);
    }
}

/// Whether the bytes are an escape, `[`, the number in decimal and a tilde.
pub open spec fn is_numbered(b: Seq<u8>, n: int) -> bool {
    if n < 10 {
        b == seq![27u8, 91, (48 + n) as u8, 126]
    } else {
        b == seq![27u8, 91, (48 + n / 10) as u8, (48 + n % 10) as u8, 126]
    }
}

/// The number by which a terminal knows a function key from the fifth on; 16
/// and 22 are left out.
pub open spec fn function_key_number(n: u8) -> int {
    if n <= 5 {
        n + 10
    } else if n <= 10 {
        n + 11
    } else {
        n + 12
    }
}

/// Keys that are no characters send what a terminal sends for them: a control
/// byte, a letter behind an escape, or their number.
pub proof fn named_keys_send_their_sequence(modifiers: KeyModifiers, app_cursor: bool)
    ensures
        sent(KeyCode::Enter, modifiers, app_cursor) == seq!['\r' as u8],
        sent(KeyCode::Tab, modifiers, app_cursor) == seq!['\t' as u8],
        sent(KeyCode::Backspace, modifiers, app_cursor) == seq![127u8],
        sent(KeyCode::Esc, modifiers, app_cursor) == seq![27u8],
        sent(KeyCode::BackTab, modifiers, app_cursor) == seq![27u8, '[' as u8, 'Z' as u8],
        sent(KeyCode::Home, modifiers, app_cursor) == seq![27u8, '[' as u8, 'H' as u8],
        sent(KeyCode::End, modifiers, app_cursor) == seq![27u8, '[' as u8, 'F' as u8],
        is_numbered(sent(KeyCode::Insert, modifiers, app_cursor), 2),
        is_numbered(sent(KeyCode::Delete, modifiers, app_cursor), 3),
        is_numbered(sent(KeyCode::PageUp, modifiers, app_cursor), 5),
        is_numbered(sent(KeyCode::PageDown, modifiers, app_cursor), 6),
        forall|n: u8|
            1 <= n <= 4 ==> #[trigger] sent(KeyCode::F(n), modifiers, app_cursor) == seq![
                27u8,
                'O' as u8,
                (79 + n) as u8,
            ],
        forall|n: u8|
            5 <= n <= 12 ==> is_numbered(
                #[trigger] sent(KeyCode::F(n), modifiers, app_cursor),
                function_key_number(n),
            ),
        forall|n: u8|
            n == 0 || n > 12 ==> #[trigger] sent(KeyCode::F(n), modifiers, app_cursor).len() == 0,
{
}

/// Whether the key sends anything.
pub open spec fn is_sent(code: KeyCode) -> bool {
    match code {
        KeyCode::Null | KeyCode::CapsLock | KeyCode::ScrollLock | KeyCode::NumLock
        | KeyCode::PrintScreen | KeyCode::Pause | KeyCode::Menu | KeyCode::KeypadBegin
        | KeyCode::Media(_) | KeyCode::Modifier(_) => false,
        KeyCode::F(n) => 1 <= n <= 12,
        _ => true,
    }
}

/// Keys without a meaning for a shell send nothing, all others send something.
pub proof fn keys_without_a_meaning_send_nothing(
    code: KeyCode,
    modifiers: KeyModifiers,
    app_cursor: bool,
)
    ensures
        sent(code, modifiers, app_cursor).len() > 0 <==> is_sent(code),
{
    if let KeyCode::Char(c) = code {
        reveal_with_fuel(utf8::encode_utf8, 2);
    }
}

/// The shell can tell the keys apart: no two keys that are no characters send
/// the same bytes.
pub proof fn keys_can_be_told_apart(
    k1: KeyCode,
    k2: KeyCode,
    m1: KeyModifiers,
    m2: KeyModifiers,
    app_cursor: bool,
)
    requires
        !(k1 is Char),
        !(k2 is Char),
        is_sent(k1),
        sent(k1, m1, app_cursor) == sent(k2, m2, app_cursor),
    ensures
        k1 == k2,
{
    let a = sent(k1, m1, app_cursor);
    let b = sent(k2, m2, app_cursor);
    assert(a.len() == b.len());
    assert(a[0] == b[0]);
    if a.len() > 2 {
        assert(a[1] == b[1]);
        assert(a[2] == b[2]);
    }
    if a.len() > 4 {
        assert(a[3] == b[3]);
    }
}

// ---------------------------------------------------------------------------
// Keys and text for a session
// ---------------------------------------------------------------------------

/// Whether a key goes to the session at the path: the terminal panel has the
/// focus, no dialog is open, and the selected worktree is at the path and has a
/// session.
pub open spec fn shell_listens(a: AppView, path: Seq<u8>) -> bool {
    &&& a.state.focus == PanelFocus::Terminal
    &&& a.state.delete_worktree_dialog is None
    &&& a.state.add_repo_dialog is None
    &&& a.state.new_worktree_dialog is None
    &&& a.state.selected() matches Some(w) && w.path == path
    &&& a.pty_manager.has(path)
}

/// Whatever is typed goes to the shell of the selected worktree, once, unless
/// it is the key that leaves the terminal panel: with it the selected text goes
/// and the newest output comes into view, and nothing else changes.
pub proof fn keys_go_to_the_selected_shell(
    a: AppView,
    key: KeyEvent,
    path: Seq<u8>,
    t: TerminalSnapshotView,
    home: UserDirView,
)
    requires
        shell_listens(a, path),
        keybindings::action_for(a.state.keybindings, key.code, key.modifiers) != Some(
            Action::UnfocusTerminal,
        ),
    ensures
        ({
            let (b, effects) = handler::event_handled(a, EventView::Key(key), t, home);
            &&& effects.len() == 3
            &&& effects[0] == EffectView::ClearSelection { path }
            &&& effects[1] == EffectView::ResetScroll { path }
            &&& effects[2] == EffectView::WriteInput {
                path,
                bytes: sent(key.code, key.modifiers, t.mode & 2 == 2),
            }
            &&& b == (AppView { pty_manager: b.pty_manager, ..a })
            &&& b.pty_manager.sessions.len() == a.pty_manager.sessions.len()
            &&& b.pty_manager.shell == a.pty_manager.shell
            &&& !b.pty_manager.is_dragging(path)
        }),
{
    pty::dragging_keeps_sessions(a.pty_manager, path, false, path);
    pty::session_is_where_it_is_found(a.pty_manager, path);
}

/// The key that leaves the terminal panel gives the focus to the worktree panel
/// and sends nothing.
pub proof fn the_leaving_key_leaves(
    a: AppView,
    key: KeyEvent,
    t: TerminalSnapshotView,
    home: UserDirView,
)
    requires
        a.state.focus == PanelFocus::Terminal,
        a.state.delete_worktree_dialog is None,
        a.state.add_repo_dialog is None,
        a.state.new_worktree_dialog is None,
        keybindings::action_for(a.state.keybindings, key.code, key.modifiers) == Some(
            Action::UnfocusTerminal,
        ),
    ensures
        ({
            let (b, effects) = handler::event_handled(a, EventView::Key(key), t, home);
            &&& b.state == (AppStateView { focus: PanelFocus::WorktreeList, ..a.state })
            &&& forall|i: int|
                0 <= i < effects.len() ==> (#[trigger] effects[i]) is ClearSelection
        }),
{
}

/// Without a session, a key in the terminal panel does nothing.
pub proof fn keys_without_a_session_are_lost(
    a: AppView,
    key: KeyEvent,
    t: TerminalSnapshotView,
    home: UserDirView,
)
    requires
        a.state.focus == PanelFocus::Terminal,
        a.state.delete_worktree_dialog is None,
        a.state.add_repo_dialog is None,
        a.state.new_worktree_dialog is None,
        a.state.selected() matches Some(w) ==> !a.pty_manager.has(w.path),
        keybindings::action_for(a.state.keybindings, key.code, key.modifiers) != Some(
            Action::UnfocusTerminal,
        ),
    ensures
        handler::event_handled(a, EventView::Key(key), t, home) == (a, Seq::<EffectView>::empty()),
{
}

/// The bytes that the effects send to the session at the path, in order.
pub open spec fn bytes_for(effects: Seq<EffectView>, path: Seq<u8>) -> Seq<u8>
    decreases effects.len(),
{
    if effects.len() == 0 {
        Seq::empty()
    } else {
        let front = bytes_for(effects.drop_last(), path);
        match effects.last() {
            EffectView::WriteInput { path: p, bytes } => if p == path {
                front + bytes
            } else {
                front
            },
            _ => front,
        }
    }
}

/// Pasted text arrives at the shell of the selected worktree as it is; where
/// the program wants pasted text to be marked, it stands between the markers
/// `ESC [ 200 ~` and `ESC [ 201 ~`.
pub proof fn pasted_text_arrives(
    a: AppView,
    content: Seq<char>,
    path: Seq<u8>,
    t: TerminalSnapshotView,
    home: UserDirView,
)
    requires
        a.state.focus == PanelFocus::Terminal,
        a.state.selected() matches Some(w) && w.path == path,
        a.pty_manager.has(path),
    ensures
        ({
            let (b, effects) = handler::event_handled(a, EventView::Paste(content), t, home);
            let text = utf8::encode_utf8(content);
            &&& b == a
            &&& effects[0] == EffectView::ResetScroll { path }
            &&& forall|i: int|
                0 < i < effects.len() ==> (#[trigger] effects[i] matches EffectView::WriteInput {
                    path: p,
                    ..
                } && p == path)
            &&& t.mode & 16 == 0 ==> bytes_for(effects, path) == text
            &&& t.mode & 16 != 0 ==> bytes_for(effects, path) == seq![27u8, 91, 50, 48, 48, 126]
                + text + seq![27u8, 91, 50, 48, 49, 126]
        }),
{
    let mode = t.mode;
    assert(mode & 16 == 16 || mode & 16 == 0) by (bit_vector);
    let effects = handler::event_handled(a, EventView::Paste(content), t, home).1;
    let text = utf8::encode_utf8(content);
    reveal_with_fuel(bytes_for, 5);
    if mode & 16 == 0 {
        assert(bytes_for(effects, path) =~= text);
    } else {
        assert(bytes_for(effects, path) =~= seq![27u8, 91, 50, 48, 48, 126] + text + seq![
            27u8,
            91,
            50,
            48,
            49,
            126,
        ]);
    }
}

/// Pasted text goes nowhere but to the session in the focused terminal panel.
pub proof fn pasted_text_needs_a_listening_shell(
    a: AppView,
    content: Seq<char>,
    t: TerminalSnapshotView,
    home: UserDirView,
)
    requires
        a.state.focus != PanelFocus::Terminal || (a.state.selected() matches Some(w)
            ==> !a.pty_manager.has(w.path)),
    ensures
        handler::event_handled(a, EventView::Paste(content), t, home) == (
            a,
            Seq::<EffectView>::empty(),
        ),
{
}

} // verus!
