use gitopiary::app::{App, Effect, TerminalSnapshot};
use gitopiary::config::{Config, RepoConfig};
use gitopiary::events::handler::{
    can_handle, compute_terminal_pty_size, crossterm_key_to_pty_bytes, exact_or_approx_pty_size,
    handle_event, handle_event_in, session_opened,
};
use gitopiary::events::input::{
    Event, KeyCode, KeyEvent, KeyModifiers, MouseButton, MouseEvent, MouseEventKind,
};
use gitopiary::events::AppEvent;
use gitopiary::github::pr::PrInfo;
use gitopiary::keybindings::{Action, Binding, Keybindings};
use gitopiary::paths::{FilePath, UserDir};
use gitopiary::pty;
use gitopiary::state::types::{AppState, PanelFocus, Repository, Worktree, WorktreeStatus};
use gitopiary::ui::new_worktree::{can_draw, can_place, dialog_area, form_areas, form_contents};
use gitopiary::ui::{build_status_hints, frame_areas, frame_contents, status_bar, Rect};
use gitopiary::vcs::VcsBackend;

const PLAIN: KeyModifiers = KeyModifiers {
    shift: false,
    control: false,
    alt: false,
    super_key: false,
    hyper: false,
    meta: false,
};

fn at(path: &str) -> FilePath {
    FilePath::from_text(path)
}

fn worktree(name: &str, is_main: bool) -> Worktree {
    Worktree {
        name: name.to_string(),
        path: at(&format!("/w/{}", name)),
        branch: format!("b-{}", name),
        is_main,
        status: WorktreeStatus { uncommitted_changes: 0, ahead: 0, behind: 0, is_dirty: false },
        pr: None,
        backend: VcsBackend::Git,
    }
}

fn repo(path: &str, worktrees: Vec<Worktree>) -> Repository {
    let mut r = Repository::new(RepoConfig { path: at(path), name: None });
    r.worktrees = worktrees;
    r
}

fn keys() -> Keybindings {
    let bound = [
        ('q', Action::Quit),
        ('j', Action::MoveDown),
        ('k', Action::MoveUp),
        ('t', Action::FocusTerminal),
        ('u', Action::UnfocusTerminal),
        ('n', Action::NewWorktree),
        ('d', Action::DeleteWorktree),
        ('a', Action::AddRepo),
        ('o', Action::OpenEditor),
        ('r', Action::Refresh),
    ];
    Keybindings {
        bindings: bound
            .iter()
            .map(|(c, action)| Binding {
                code: KeyCode::Char(*c),
                modifiers: PLAIN,
                action: *action,
                hint: c.to_string(),
            })
            .collect(),
    }
}

fn app() -> App {
    let repos = vec![
        repo("/w/main", vec![worktree("main", true), worktree("x", false)]),
        repo("/v/other", vec![worktree("other", true)]),
    ];
    let config = Config {
        repos: repos.iter().map(|r| r.config.clone()).collect(),
        shell: "/bin/sh".to_string(),
        refresh_interval_secs: 30,
    };
    App::new(AppState::new(repos, keys()), config)
}

fn quiet() -> TerminalSnapshot {
    TerminalSnapshot { mode: 0, selection: None }
}

fn key(code: KeyCode) -> Event {
    Event::Key(KeyEvent { code, modifiers: PLAIN })
}

fn press(app: &mut App, code: KeyCode) -> Vec<Effect> {
    let event = key(code);
    assert!(can_handle(app, &event));
    handle_event_in(app, event, &quiet(), &UserDir::At(at("/home/u")))
}

fn type_text(app: &mut App, text: &str) {
    for c in text.chars() {
        assert!(press(app, KeyCode::Char(c)).is_empty());
    }
}

fn mouse(kind: MouseEventKind, column: u16, row: u16) -> Event {
    Event::Mouse(MouseEvent { kind, column, row })
}

fn act(app: &mut App, event: Event, terminal: &TerminalSnapshot) -> Vec<Effect> {
    assert!(can_handle(app, &event));
    handle_event_in(app, event, terminal, &UserDir::Missing)
}

fn shown(effects: &[Effect]) -> String {
    let text = format!("{:?}", effects);
    let mut out = String::new();
    let mut rest = text.as_str();
    let start = "FilePath { bytes: [";
    while let Some(i) = rest.find(start) {
        out.push_str(&rest[..i]);
        let tail = &rest[i + start.len()..];
        let end = tail.find("] }").unwrap();
        let bytes = tail[..end].split(", ").map(|n| n.parse().unwrap()).collect();
        out.push_str(&format!("{:?}", String::from_utf8(bytes).unwrap()));
        rest = &tail[end + 3..];
    }
    out.push_str(rest);
    out
}

fn with_session() -> App {
    let mut a = app();
    let effects = press(&mut a, KeyCode::Char('t'));
    assert_eq!(
        shown(&effects),
        "[OpenSession { path: \"/w/main\", rows: 21, cols: 46, select: None }]"
    );
    assert_eq!(a.state.focus, PanelFocus::WorktreeList);
    assert!(session_opened(&mut a, &at("/w/main"), true, None).is_empty());
    assert_eq!(a.state.focus, PanelFocus::Terminal);
    a
}

// --- keys to bytes ---------------------------------------------------------

fn bytes(code: KeyCode, modifiers: KeyModifiers, app_cursor: bool) -> Vec<u8> {
    crossterm_key_to_pty_bytes(KeyEvent { code, modifiers }, app_cursor)
}

#[test]
fn keys_become_the_bytes_of_a_terminal() {
    assert_eq!(bytes(KeyCode::Char('a'), PLAIN, false), b"a");
    assert_eq!(bytes(KeyCode::Char('\u{20ac}'), PLAIN, false), "\u{20ac}".as_bytes());
    let control = KeyModifiers { control: true, ..PLAIN };
    let alt = KeyModifiers { alt: true, ..PLAIN };
    assert_eq!(bytes(KeyCode::Char('c'), control, false), vec![3]);
    assert_eq!(bytes(KeyCode::Char('C'), control, false), vec![3]);
    assert_eq!(bytes(KeyCode::Char('\u{163}'), control, false), vec![3]);
    assert_eq!(bytes(KeyCode::Char('x'), alt, false), b"\x1bx");
    assert_eq!(bytes(KeyCode::Enter, PLAIN, false), b"\r");
    assert_eq!(bytes(KeyCode::Backspace, PLAIN, false), vec![0x7f]);
    assert_eq!(bytes(KeyCode::Delete, PLAIN, false), b"\x1b[3~");
    assert_eq!(bytes(KeyCode::Tab, PLAIN, false), b"\t");
    assert_eq!(bytes(KeyCode::BackTab, PLAIN, false), b"\x1b[Z");
    assert_eq!(bytes(KeyCode::Esc, PLAIN, false), b"\x1b");
    assert_eq!(bytes(KeyCode::Up, PLAIN, false), b"\x1b[A");
    assert_eq!(bytes(KeyCode::Up, PLAIN, true), b"\x1bOA");
    assert_eq!(bytes(KeyCode::Down, PLAIN, false), b"\x1b[B");
    assert_eq!(bytes(KeyCode::Right, PLAIN, true), b"\x1bOC");
    assert_eq!(bytes(KeyCode::Left, PLAIN, false), b"\x1b[D");
    assert_eq!(bytes(KeyCode::Home, PLAIN, false), b"\x1b[H");
    assert_eq!(bytes(KeyCode::End, PLAIN, false), b"\x1b[F");
    assert_eq!(bytes(KeyCode::PageUp, PLAIN, false), b"\x1b[5~");
    assert_eq!(bytes(KeyCode::PageDown, PLAIN, false), b"\x1b[6~");
    assert_eq!(bytes(KeyCode::Insert, PLAIN, false), b"\x1b[2~");
    let functions: [&[u8]; 12] = [
        b"\x1bOP", b"\x1bOQ", b"\x1bOR", b"\x1bOS", b"\x1b[15~", b"\x1b[17~", b"\x1b[18~",
        b"\x1b[19~", b"\x1b[20~", b"\x1b[21~", b"\x1b[23~", b"\x1b[24~",
    ];
    for n in 0..12u8 {
        assert_eq!(bytes(KeyCode::F(n + 1), PLAIN, false), functions[n as usize]);
    }
    assert!(bytes(KeyCode::F(13), PLAIN, false).is_empty());
    assert!(bytes(KeyCode::CapsLock, PLAIN, false).is_empty());
}

// --- sizes -----------------------------------------------------------------

#[test]
fn sizes_of_sessions() {
    assert_eq!(compute_terminal_pty_size(&(80, 24)), (21, 46));
    assert_eq!(compute_terminal_pty_size(&(200, 60)), (57, 118));
    assert_eq!(compute_terminal_pty_size(&(0, 0)), (10, 20));
    assert_eq!(compute_terminal_pty_size(&(65535, 65535)), (65532, 39319));
    let mut a = app();
    assert_eq!(exact_or_approx_pty_size(&a), (21, 46));
    assert_eq!(shown(&a.sync_pty_sizes((50, 20))), "[ResizeAll { rows: 20, cols: 50 }]");
    assert_eq!(exact_or_approx_pty_size(&a), (20, 50));
    assert!(a.sync_pty_sizes((50, 20)).is_empty());
    assert!(a.sync_pty_sizes((0, 20)).is_empty());
    assert!(a.sync_pty_sizes((50, 0)).is_empty());
    assert_eq!(a.last_synced_inner, (50, 20));
    let effects = act(&mut a, Event::Resize(100, 40), &quiet());
    assert_eq!(shown(&effects), "[ResizeAll { rows: 37, cols: 58 }]");
    assert_eq!(a.terminal_size, (100, 40));
}

// --- sessions and pasted text ----------------------------------------------

#[test]
fn keys_go_to_the_focused_session() {
    let mut a = with_session();
    let effects = press(&mut a, KeyCode::Char('j'));
    assert_eq!(
        shown(&effects),
        "[ClearSelection { path: \"/w/main\" }, ResetScroll { path: \"/w/main\" }, \
         WriteInput { path: \"/w/main\", bytes: [106] }]"
    );
    let cursor = TerminalSnapshot { mode: pty::APP_CURSOR, selection: None };
    let effects = act(&mut a, key(KeyCode::Up), &cursor);
    assert!(shown(&effects).contains("bytes: [27, 79, 65]"));
    let effects = press(&mut a, KeyCode::Char('u'));
    assert_eq!(shown(&effects), "[ClearSelection { path: \"/w/main\" }]");
    assert_eq!(a.state.focus, PanelFocus::WorktreeList);
    a.state.focus = PanelFocus::Terminal;
    a.state.selected_worktree_idx = 1;
    assert!(press(&mut a, KeyCode::Char('j')).is_empty());
}

#[test]
fn pasted_text_is_marked_where_the_program_wants_it() {
    let mut a = with_session();
    let effects = act(&mut a, Event::Paste("hi".to_string()), &quiet());
    assert_eq!(
        shown(&effects),
        "[ResetScroll { path: \"/w/main\" }, WriteInput { path: \"/w/main\", bytes: [104, 105] }]"
    );
    let marked = TerminalSnapshot { mode: pty::BRACKETED_PASTE, selection: None };
    let effects = act(&mut a, Event::Paste("hi".to_string()), &marked);
    let written: Vec<Vec<u8>> = effects
        .into_iter()
        .filter_map(|e| match e {
            Effect::WriteInput { bytes, .. } => Some(bytes),
            _ => None,
        })
        .collect();
    assert_eq!(written, vec![b"\x1b[200~".to_vec(), b"hi".to_vec(), b"\x1b[201~".to_vec()]);
    a.state.focus = PanelFocus::WorktreeList;
    assert!(act(&mut a, Event::Paste("hi".to_string()), &marked).is_empty());
    assert!(act(&mut a, Event::FocusGained, &quiet()).is_empty());
    assert!(act(&mut a, Event::FocusLost, &quiet()).is_empty());
}

#[test]
fn terminal_modes_are_those_of_the_emulator() {
    type Mode = alacritty_terminal::term::TermMode;
    assert_eq!(pty::APP_CURSOR, Mode::APP_CURSOR.bits());
    assert_eq!(pty::BRACKETED_PASTE, Mode::BRACKETED_PASTE.bits());
    assert_eq!(pty::SGR_MOUSE, Mode::SGR_MOUSE.bits());
    assert_eq!(pty::ALT_SCREEN, Mode::ALT_SCREEN.bits());
    assert_eq!(pty::MOUSE_MODE, Mode::MOUSE_MODE.bits());
    assert_eq!(Mode::all().bits(), u32::MAX);
}

#[test]
fn a_session_that_cannot_be_opened_gets_no_focus() {
    let mut a = app();
    assert!(session_opened(&mut a, &at("/w/main"), false, Some((1, 2))).is_empty());
    assert_eq!(a.state.focus, PanelFocus::WorktreeList);
    assert!(!a.pty_manager.has_any_sessions());
    let effects = session_opened(&mut a, &at("/w/main"), true, Some((1, 2)));
    assert_eq!(shown(&effects), "[StartSelection { path: \"/w/main\", row: 1, col: 2 }]");
    assert!(a.pty_manager.is_dragging(&at("/w/main")));
    session_opened(&mut a, &at("/w/main/"), true, None);
    assert_eq!(a.pty_manager.sessions.len(), 1);
}

// --- mouse -----------------------------------------------------------------

#[test]
fn clicks_move_the_focus() {
    let mut a = with_session();
    let left = MouseEventKind::Down(MouseButton::Left);
    let right = MouseEventKind::Down(MouseButton::Right);
    assert_eq!(
        shown(&act(&mut a, mouse(left, 31, 5), &quiet())),
        "[ClearSelection { path: \"/w/main\" }]"
    );
    assert_eq!(a.state.focus, PanelFocus::WorktreeList);
    act(&mut a, mouse(right, 40, 5), &quiet());
    assert_eq!(a.state.focus, PanelFocus::Terminal);
    act(&mut a, mouse(right, 3, 5), &quiet());
    assert_eq!(a.state.focus, PanelFocus::WorktreeList);
    assert!(act(&mut a, mouse(left, 40, 23), &quiet()).is_empty());
    assert_eq!(a.state.focus, PanelFocus::WorktreeList);
    act(&mut a, mouse(left, 32, 5), &quiet());
    assert_eq!(a.state.focus, PanelFocus::Terminal);
    assert_eq!(
        shown(&act(&mut a, mouse(left, 33, 1), &quiet())),
        "[OpenSession { path: \"/w/main\", rows: 21, cols: 46, select: Some((0, 0)) }]"
    );
    let mut empty = App::new(
        AppState::new(vec![], keys()),
        Config { repos: vec![], shell: String::new(), refresh_interval_secs: 1 },
    );
    assert!(act(&mut empty, mouse(left, 50, 5), &quiet()).is_empty());
    assert_eq!(empty.state.focus, PanelFocus::Terminal);
}

#[test]
fn a_drag_selects_within_the_panel_and_is_copied() {
    let mut a = with_session();
    let drag = MouseEventKind::Drag(MouseButton::Left);
    let up = MouseEventKind::Up(MouseButton::Left);
    assert!(act(&mut a, mouse(drag, 40, 5), &quiet()).is_empty());
    session_opened(&mut a, &at("/w/main"), true, Some((4, 7)));
    assert_eq!(
        shown(&act(&mut a, mouse(drag, 40, 5), &quiet())),
        "[UpdateSelection { path: \"/w/main\", row: 4, col: 7 }]"
    );
    assert_eq!(
        shown(&act(&mut a, mouse(drag, 0, 0), &quiet())),
        "[UpdateSelection { path: \"/w/main\", row: 0, col: 0 }]"
    );
    assert_eq!(
        shown(&act(&mut a, mouse(drag, 999, 999), &quiet())),
        "[UpdateSelection { path: \"/w/main\", row: 20, col: 45 }]"
    );
    let selected = TerminalSnapshot { mode: 0, selection: Some("text".to_string()) };
    assert_eq!(
        shown(&act(&mut a, mouse(up, 40, 5), &selected)),
        "[CopyToClipboard { content: \"text\" }]"
    );
    assert!(!a.pty_manager.is_dragging(&at("/w/main")));
    let nothing = TerminalSnapshot { mode: 0, selection: Some(String::new()) };
    assert_eq!(
        shown(&act(&mut a, mouse(up, 40, 5), &nothing)),
        "[ClearSelection { path: \"/w/main\" }]"
    );
    assert_eq!(
        shown(&act(&mut a, mouse(up, 40, 5), &quiet())),
        "[ClearSelection { path: \"/w/main\" }]"
    );
    assert!(act(&mut a, mouse(MouseEventKind::Moved, 40, 5), &quiet()).is_empty());
}

fn wheel(a: &mut App, kind: MouseEventKind, mode: u32, column: u16, row: u16) -> Vec<Effect> {
    let terminal = TerminalSnapshot { mode, selection: None };
    let mut effects = act(a, mouse(kind, column, row), &terminal);
    assert_eq!(shown(&effects[..1]), "[ClearSelection { path: \"/w/main\" }]");
    effects.remove(0);
    effects
}

fn written(effects: &[Effect]) -> Vec<Vec<u8>> {
    effects
        .iter()
        .filter_map(|e| match e {
            Effect::WriteInput { bytes, .. } => Some(bytes.clone()),
            _ => None,
        })
        .collect()
}

#[test]
fn the_wheel_scrolls_or_is_reported() {
    let mut a = with_session();
    let up = MouseEventKind::ScrollUp;
    let down = MouseEventKind::ScrollDown;
    assert_eq!(
        shown(&wheel(&mut a, up, 0, 40, 5)),
        "[ScrollUp { path: \"/w/main\", lines: 3 }]"
    );
    assert_eq!(
        shown(&wheel(&mut a, down, 0, 40, 5)),
        "[ScrollDown { path: \"/w/main\", lines: 3 }]"
    );
    let arrows = wheel(&mut a, down, pty::ALT_SCREEN, 40, 5);
    assert_eq!(written(&arrows), vec![b"\x1b[B".to_vec(); 3]);
    let sgr = wheel(&mut a, up, 8 | pty::SGR_MOUSE, 40, 5);
    assert_eq!(written(&sgr), vec![b"\x1b[<64;8;5M".to_vec()]);
    let sgr = wheel(&mut a, down, 64 | pty::SGR_MOUSE | pty::ALT_SCREEN, 0, 0);
    assert_eq!(written(&sgr), vec![b"\x1b[<65;1;1M".to_vec()]);
    let plain = wheel(&mut a, up, 8192, 40, 5);
    assert_eq!(written(&plain), vec![vec![0x1b, b'[', b'M', 96, 40, 37]]);
    let far = wheel(&mut a, down, 8, 33 + 249, 300);
    assert_eq!(written(&far), vec![vec![0x1b, b'[', b'M', 97, 255, 76]]);
    a.state.focus = PanelFocus::WorktreeList;
    assert!(act(&mut a, mouse(up, 40, 5), &quiet()).is_empty());
}

// --- worktree panel --------------------------------------------------------

#[test]
fn actions_of_the_worktree_panel() {
    let mut a = app();
    press(&mut a, KeyCode::Char('j'));
    assert_eq!(a.state.selected_worktree_idx, 1);
    press(&mut a, KeyCode::Char('k'));
    assert_eq!(a.state.selected_worktree_idx, 0);
    assert!(press(&mut a, KeyCode::Char('u')).is_empty());
    assert!(press(&mut a, KeyCode::Char('z')).is_empty());
    assert_eq!(shown(&press(&mut a, KeyCode::Char('o'))), "[OpenEditor { path: \"/w/main\" }]");
    assert_eq!(shown(&press(&mut a, KeyCode::Char('r'))), "[StartRefresh]");
    assert!(a.state.is_refreshing);
    assert!(press(&mut a, KeyCode::Char('r')).is_empty());
    press(&mut a, KeyCode::Char('q'));
    assert!(a.state.should_quit);
}

#[test]
fn a_main_worktree_is_not_offered_for_deletion() {
    let mut a = app();
    press(&mut a, KeyCode::Char('d'));
    assert!(a.state.delete_worktree_dialog.is_none());
}

#[test]
fn a_worktree_is_deleted_by_the_backend_that_owns_it() {
    let mut a = with_session();
    session_opened(&mut a, &at("/w/x"), true, None);
    a.state.focus = PanelFocus::WorktreeList;
    a.state.selected_worktree_idx = 1;
    a.state.repos[0].backend = VcsBackend::Git;
    a.state.repos[0].worktrees[1].backend = VcsBackend::Jj;
    press(&mut a, KeyCode::Char('d'));
    let d = a.state.delete_worktree_dialog.as_ref().unwrap();
    assert_eq!((d.repo_idx, d.worktree_idx), (0, 1));
    assert_eq!(d.branch_name, "b-x");
    let effects = press(&mut a, KeyCode::Char('Y'));
    assert_eq!(
        shown(&effects),
        "[RemoveSession { path: \"/w/x\" }, RemoveWorktree { backend: Jj, repo_path: \"/w/main\", \
         worktree_path: \"/w/x\", workspace_name: \"x\" }]"
    );
    assert!(!a.pty_manager.has_session(&at("/w/x")));
    assert!(a.pty_manager.has_session(&at("/w/main")));
    assert!(press(&mut a, KeyCode::Esc).is_empty());
    assert!(a.state.delete_worktree_dialog.as_ref().unwrap().is_deleting);
    let (redraw, effects) =
        a.process_event(AppEvent::WorktreeDeleteError("no".to_string()), &quiet());
    assert!(redraw && effects.is_empty());
    let d = a.state.delete_worktree_dialog.as_ref().unwrap();
    assert_eq!((d.is_deleting, d.error.as_deref()), (false, Some("no")));
    assert!(press(&mut a, KeyCode::Char('x')).is_empty());
    assert!(a.state.delete_worktree_dialog.is_none());
}

// --- dialogs ---------------------------------------------------------------

#[test]
fn a_new_worktree_is_asked_for() {
    let mut a = app();
    a.state.repos[0].backend = VcsBackend::Jj;
    press(&mut a, KeyCode::Char('n'));
    assert_eq!(a.state.new_worktree_dialog.as_ref().unwrap().backend, VcsBackend::Jj);
    assert!(press(&mut a, KeyCode::Enter).is_empty());
    let error = a.state.new_worktree_dialog.as_ref().unwrap().error.clone();
    assert_eq!(error.as_deref(), Some("Branch name cannot be empty"));
    type_text(&mut a, "feat");
    press(&mut a, KeyCode::Home);
    assert_eq!(a.state.new_worktree_dialog.as_ref().unwrap().cursor_pos, 4);
    let effects = press(&mut a, KeyCode::Enter);
    assert_eq!(
        shown(&effects),
        "[CreateWorktree { repo_path: \"/w/main\", name: \"feat\" }]"
    );
    type_text(&mut a, "ignored");
    let (_, effects) = a.process_event(AppEvent::WorktreeCreateError("taken".to_string()), &quiet());
    assert!(effects.is_empty());
    let d = a.state.new_worktree_dialog.as_ref().unwrap();
    assert_eq!(
        (d.branch_name.as_str(), d.cursor_pos, d.error.as_deref(), d.is_creating),
        ("feat", 4, Some("taken"), false)
    );
    press(&mut a, KeyCode::Esc);
    assert!(a.state.new_worktree_dialog.is_none());
    press(&mut a, KeyCode::Char('n'));
    type_text(&mut a, "x");
    a.state.new_worktree_dialog.as_mut().unwrap().repo_idx = 9;
    assert!(press(&mut a, KeyCode::Enter).is_empty());
    assert!(a.state.new_worktree_dialog.is_none());
}

#[test]
fn a_repository_is_asked_for() {
    let mut a = app();
    press(&mut a, KeyCode::Char('a'));
    assert!(press(&mut a, KeyCode::Enter).is_empty());
    let error = a.state.add_repo_dialog.as_ref().unwrap().error.clone();
    assert_eq!(error.as_deref(), Some("Path cannot be empty"));
    type_text(&mut a, "/w//main/");
    assert!(press(&mut a, KeyCode::Enter).is_empty());
    let error = a.state.add_repo_dialog.as_ref().unwrap().error.clone();
    assert_eq!(error.as_deref(), Some("This repository is already tracked"));
    for _ in 0..9 {
        press(&mut a, KeyCode::Backspace);
    }
    type_text(&mut a, "/src");
    press(&mut a, KeyCode::Home);
    type_text(&mut a, "~");
    let effects = press(&mut a, KeyCode::Enter);
    assert_eq!(shown(&effects), "[ValidateRepo { path: \"/home/u/src\" }]");
    assert!(a.state.add_repo_dialog.as_ref().unwrap().is_adding);
    a.process_event(AppEvent::RepoAddError("no".to_string()), &quiet());
    let d = a.state.add_repo_dialog.as_ref().unwrap();
    assert_eq!(
        (d.path_input.as_str(), d.error.as_deref(), d.is_adding),
        ("~/src", Some("no"), false)
    );
    press(&mut a, KeyCode::Esc);
    assert!(a.state.add_repo_dialog.is_none());
}

#[test]
fn a_path_below_a_home_that_is_no_text_is_validated() {
    let mut a = app();
    press(&mut a, KeyCode::Char('a'));
    type_text(&mut a, "~/src");
    let home = UserDir::At(FilePath { bytes: b"/home/\xff".to_vec() });
    let effects = handle_event_in(&mut a, key(KeyCode::Enter), &quiet(), &home);
    match &effects[..] {
        [Effect::ValidateRepo { path }] => assert_eq!(path.bytes, b"/home/\xff/src"),
        other => panic!("{:?}", other),
    }
    let d = a.state.add_repo_dialog.as_ref().unwrap();
    assert!(d.is_adding && d.error.is_none());
    let path = FilePath { bytes: b"/home/\xff/src".to_vec() };
    a.process_event(AppEvent::RepoAdded(path), &quiet());
    assert_eq!(a.config.repos[2].path.bytes, b"/home/\xff/src");
    press(&mut a, KeyCode::Char('a'));
    type_text(&mut a, "~/src");
    let effects = handle_event_in(&mut a, key(KeyCode::Enter), &quiet(), &home);
    assert!(effects.is_empty());
    let error = a.state.add_repo_dialog.as_ref().unwrap().error.clone();
    assert_eq!(error.as_deref(), Some("This repository is already tracked"));
}

#[test]
fn the_home_directory_is_looked_up() {
    let mut a = app();
    press(&mut a, KeyCode::Char('a'));
    type_text(&mut a, "~/src");
    let effects = handle_event(&mut a, key(KeyCode::Enter), &quiet());
    let home = dirs::home_dir().unwrap_or_else(|| std::path::PathBuf::from("/"));
    let expected = home.join("src").to_string_lossy().to_string();
    assert_eq!(shown(&effects), format!("[ValidateRepo {{ path: {:?} }}]", expected));
}

#[test]
fn dialogs_take_keys_in_order_of_urgency() {
    let mut a = app();
    a.state.selected_worktree_idx = 1;
    press(&mut a, KeyCode::Char('n'));
    a.state.add_repo_dialog = Some(gitopiary::state::types::AddRepoDialog::new());
    type_text(&mut a, "p");
    assert_eq!(a.state.add_repo_dialog.as_ref().unwrap().path_input, "p");
    assert_eq!(a.state.new_worktree_dialog.as_ref().unwrap().branch_name, "");
    press(&mut a, KeyCode::Esc);
    type_text(&mut a, "n");
    assert_eq!(a.state.new_worktree_dialog.as_ref().unwrap().branch_name, "n");
}

#[test]
fn a_field_refuses_keys_inside_a_character() {
    let mut a = app();
    press(&mut a, KeyCode::Char('n'));
    press(&mut a, KeyCode::Char('\u{e9}'));
    assert!(!can_handle(&a, &key(KeyCode::Char('x'))));
    assert!(can_handle(&a, &key(KeyCode::Esc)));
    assert!(can_handle(&a, &Event::Paste("x".to_string())));
    press(&mut a, KeyCode::Right);
    assert!(can_handle(&a, &key(KeyCode::Char('x'))));
}

// --- application events ----------------------------------------------------

#[test]
fn refreshes_do_not_overlap() {
    let mut a = app();
    let (redraw, effects) = a.process_event(AppEvent::RefreshTick, &quiet());
    assert!(!redraw);
    assert_eq!(shown(&effects), "[StartRefresh]");
    let (_, effects) = a.process_event(AppEvent::RefreshTick, &quiet());
    assert!(effects.is_empty());
    assert!(a.trigger_refresh().is_empty());
    let (redraw, _) = a.process_event(AppEvent::RefreshError("x".to_string()), &quiet());
    assert!(redraw && a.state.is_refreshing);
    let (redraw, effects) = a.process_event(AppEvent::RefreshDone, &quiet());
    assert!(redraw && !a.state.is_refreshing);
    match &effects[..] {
        [Effect::SaveCache(cache)] => {
            assert_eq!(cache.repos.len(), 2);
            assert_eq!(cache.repos[0].worktrees[1].name, "x");
        }
        other => panic!("{:?}", other),
    }
    assert_eq!(shown(&a.trigger_refresh()), "[StartRefresh]");
}

#[test]
fn a_loaded_repository_replaces_its_predecessor() {
    let mut a = app();
    a.state.repos[0].is_expanded = false;
    a.state.selected_worktree_idx = 1;
    let fresh = repo("/w/main/", vec![worktree("main", true)]);
    let (redraw, effects) = a.process_event(AppEvent::RepoLoaded(fresh), &quiet());
    assert!(redraw && effects.is_empty());
    assert_eq!(a.state.repos.len(), 2);
    assert_eq!(a.state.repos[0].worktrees.len(), 1);
    assert!(!a.state.repos[0].is_expanded);
    assert_eq!(a.state.repos[1].worktrees[0].name, "other");
    assert_eq!(a.state.selected_worktree_idx, 0);
    a.process_event(AppEvent::RepoLoaded(repo("/new", vec![])), &quiet());
    assert_eq!(a.state.repos[2].config.path.to_text(), "/new");
    a.state.selected_repo_idx = 7;
    a.state.selected_worktree_idx = 7;
    a.clamp_selection();
    assert_eq!((a.state.selected_repo_idx, a.state.selected_worktree_idx), (2, 0));
}

#[test]
fn pull_requests_become_badges() {
    let mut a = app();
    let prs = vec![PrInfo {
        number: 5,
        title: "t".to_string(),
        state: "MERGED".to_string(),
        is_draft: false,
        url: "u".to_string(),
        head_ref: "b-x".to_string(),
    }];
    let event = AppEvent::PrsFetched { repo_path: at("/w/main"), prs };
    assert!(a.process_event(event, &quiet()).0);
    assert!(a.state.repos[0].worktrees[0].pr.is_none());
    assert_eq!(a.state.repos[0].worktrees[1].pr.as_ref().unwrap().number, 5);
    let event = AppEvent::PrsFetched { repo_path: at("/w/main"), prs: vec![] };
    a.process_event(event, &quiet());
    assert!(a.state.repos[0].worktrees[1].pr.is_none());
    let event = AppEvent::PrsFetched { repo_path: at("/nowhere"), prs: vec![] };
    assert!(a.process_event(event, &quiet()).0);
}

#[test]
fn a_repository_is_added() {
    let mut a = app();
    press(&mut a, KeyCode::Char('a'));
    let (redraw, effects) = a.process_event(AppEvent::RepoAdded(at("/n/new")), &quiet());
    assert!(redraw);
    assert_eq!(shown(&effects), "[SaveConfig, StartRefresh]");
    assert!(a.state.add_repo_dialog.is_none());
    assert_eq!(a.config.repos.len(), 3);
    assert_eq!(a.config.repos[2].path.to_text(), "/n/new");
    assert_eq!(a.state.repos[2].display_name, "new");
    press(&mut a, KeyCode::Char('a'));
    type_text(&mut a, "/n/new");
    assert!(press(&mut a, KeyCode::Enter).is_empty());
}

#[test]
fn created_and_deleted_worktrees_start_a_refresh() {
    let mut a = with_session();
    a.state.focus = PanelFocus::WorktreeList;
    press(&mut a, KeyCode::Char('n'));
    let event = AppEvent::WorktreeCreated {
        repo_path: at("/w/main"),
        worktree_path: at("/w/y"),
    };
    let (_, effects) = a.process_event(event, &quiet());
    assert_eq!(shown(&effects), "[StartRefresh]");
    assert!(a.state.new_worktree_dialog.is_none());
    a.process_event(AppEvent::RefreshDone, &quiet());
    let event = AppEvent::WorktreeDeleted {
        repo_path: at("/w/main"),
        worktree_path: at("/w/main"),
    };
    let (_, effects) = a.process_event(event, &quiet());
    assert_eq!(shown(&effects), "[RemoveSession { path: \"/w/main\" }, StartRefresh]");
    assert!(!a.pty_manager.has_any_sessions());
}

#[test]
fn frames_are_drawn_where_something_changed() {
    let mut a = app();
    assert!(!a.process_event(AppEvent::Tick, &quiet()).0);
    let output = |p: &str| AppEvent::PtyOutput { worktree_path: at(p) };
    assert!(a.process_event(output("/w/main"), &quiet()).0);
    assert!(!a.process_event(output("/w/x"), &quiet()).0);
    let mut b = with_session();
    assert!(b.process_event(AppEvent::Tick, &quiet()).0);
    let (redraw, effects) = b.process_event(AppEvent::Crossterm(Event::Resize(90, 30)), &quiet());
    assert!(redraw);
    assert_eq!(effects.len(), 1);
    assert!(!b.process_event(AppEvent::Quit, &quiet()).0);
    assert!(b.state.should_quit);
}

// --- frames ----------------------------------------------------------------

#[test]
fn the_status_bar_shows_bound_keys() {
    assert_eq!(
        build_status_hints(&keys()),
        vec![
            "j/k: navigate",
            "t: terminal",
            "u: unfocus",
            "o: smerge",
            "n: new",
            "d: delete",
            "a: add repo",
            "r: refresh",
            "q: quit"
        ]
    );
    let mut few = keys();
    few.bindings.retain(|b| matches!(b.action, Action::MoveDown | Action::Quit | Action::AddRepo));
    assert_eq!(build_status_hints(&few), vec!["a: add repo", "q: quit"]);
    let mut a = app();
    a.state.keybindings = few;
    let bar = status_bar(&a);
    assert_eq!(bar.hints, " a: add repo  q: quit");
    assert_eq!(bar.activity, None);
    a.state.is_refreshing = true;
    assert_eq!(status_bar(&a).activity.as_deref(), Some(" \u{27f3} refreshing "));
}

#[test]
fn a_frame_shows_the_session_of_the_selected_worktree() {
    let mut a = with_session();
    let c = frame_contents(&a);
    assert_eq!(c.session.map(|p| p.to_text()).as_deref(), Some("/w/main"));
    assert!(c.terminal_focused);
    assert!(!c.new_worktree && !c.add_repo && !c.delete_worktree);
    a.state.focus = PanelFocus::WorktreeList;
    a.state.selected_worktree_idx = 1;
    press(&mut a, KeyCode::Char('d'));
    let c = frame_contents(&a);
    assert!(c.session.is_none());
    assert!(!c.terminal_focused && c.delete_worktree);
}

#[test]
fn panels_stand_side_by_side_above_the_status_bar() {
    let areas = frame_areas(Rect { x: 0, y: 0, width: 100, height: 30 });
    assert_eq!(areas.worktrees, Rect { x: 0, y: 0, width: 40, height: 29 });
    assert_eq!(areas.terminal, Rect { x: 40, y: 0, width: 60, height: 29 });
    assert_eq!(areas.status, Rect { x: 0, y: 29, width: 100, height: 1 });
}

fn expected_frame(area: Rect) -> (Rect, Rect, Rect) {
    let right = area.x.saturating_add(area.width);
    let bottom = area.y.saturating_add(area.height);
    let columns = (right - area.x) as u32;
    let left = ((40 * columns + 50) / 100) as u16;
    let height = (bottom - area.y).saturating_sub(1);
    (
        Rect { width: left, height, ..area },
        Rect { x: area.x + left, width: columns as u16 - left, height, ..area },
        Rect { y: area.y + height, height: bottom - area.y - height, ..area },
    )
}

fn check_frame(area: Rect) {
    let f = frame_areas(area);
    assert_eq!((f.worktrees, f.terminal, f.status), expected_frame(area), "{:?}", area);
}

#[test]
fn frames_of_every_width_are_divided_at_the_nearest_cell() {
    for width in 0..=400u16 {
        for x in [0u16, 7, 65300] {
            check_frame(Rect { x, y: 0, width, height: 24 });
        }
    }
    assert_eq!(frame_areas(Rect { x: 0, y: 0, width: 33, height: 5 }).worktrees.width, 13);
    assert_eq!(frame_areas(Rect { x: 0, y: 0, width: 2, height: 5 }).worktrees.width, 1);
}

#[test]
fn frames_of_every_height_have_one_row_for_the_status_bar() {
    for height in 0..=400u16 {
        for y in [0u16, 7, 65300] {
            check_frame(Rect { x: 0, y, width: 80, height });
        }
    }
}

#[test]
fn parts_of_a_frame_stay_in_it() {
    for width in [0u16, 1, 2, 3, 10, 81, 65535] {
        for height in [0u16, 1, 2, 3, 24, 65535] {
            for (x, y) in [(0u16, 0u16), (5, 7), (65530, 65533), (65535, 65535)] {
                let area = Rect { x, y, width, height };
                check_frame(area);
                let f = frame_areas(area);
                let right = x.saturating_add(width);
                let bottom = y.saturating_add(height);
                for part in [f.worktrees, f.terminal] {
                    assert!(part.x >= x && part.x as u32 + part.width as u32 <= right as u32);
                    assert!(part.y >= y && part.y as u32 + part.height as u32 <= bottom as u32);
                }
                assert!(f.status.y >= y);
                assert!(f.status.y as u32 + f.status.height as u32 <= bottom as u32);
                assert_eq!((f.status.x, f.status.width), (x, width));
            }
        }
    }
}

#[test]
fn the_rows_of_the_form_are_stacked_wherever_they_fit() {
    for y in [0u16, 3, 1000, 65520, 65526, 65527, 65528, 65529, 65530] {
        for width in [0u16, 1, 5, 30, 300] {
            let f = form_areas(Rect { x: 4, y, width, height: 7 });
            let rows = [f.label, f.input, f.error, f.hint];
            for i in 0..4u16 {
                assert_eq!((rows[i as usize].y, rows[i as usize].height), (y + 1 + i, 1));
            }
        }
    }
}

#[test]
fn the_form_needs_a_corner_only() {
    let wide = Rect { x: 65000, y: 65000, width: 600, height: 600 };
    assert!(can_place(wide));
    assert_eq!(dialog_area(wide), Rect { x: 65270, y: 65296, width: 60, height: 7 });
    assert!(!can_place(Rect { x: 65500, y: 0, width: 600, height: 10 }));
    assert!(!can_place(Rect { x: 0, y: 65500, width: 10, height: 600 }));
}

#[test]
fn the_form_is_centred() {
    let screen = Rect { x: 0, y: 0, width: 100, height: 30 };
    assert_eq!(dialog_area(screen), Rect { x: 20, y: 11, width: 60, height: 7 });
    let small = Rect { x: 2, y: 3, width: 21, height: 4 };
    assert_eq!(dialog_area(small), Rect { x: 4, y: 3, width: 17, height: 7 });
    let f = form_areas(screen);
    assert_eq!(f.outer, Rect { x: 20, y: 11, width: 60, height: 7 });
    assert_eq!(f.label, Rect { x: 21, y: 12, width: 58, height: 1 });
    assert_eq!(f.input, Rect { x: 21, y: 13, width: 58, height: 1 });
    assert_eq!(f.error, Rect { x: 21, y: 14, width: 58, height: 1 });
    assert_eq!(f.hint, Rect { x: 21, y: 15, width: 58, height: 1 });
}

#[test]
fn the_form_shows_the_name_with_a_cursor() {
    let mut a = app();
    press(&mut a, KeyCode::Char('n'));
    type_text(&mut a, "ab");
    press(&mut a, KeyCode::Left);
    let mut d = a.state.new_worktree_dialog.take().unwrap();
    let c = form_contents(&d);
    assert_eq!(c.title, " New Worktree ");
    assert_eq!(c.label, "Branch name:");
    assert_eq!(c.input, "a\u{2502}b");
    assert_eq!(c.hint, "Enter: create  Esc: cancel");
    assert!(!c.is_busy && c.error.is_none());
    d.cursor_pos = 9;
    assert_eq!(form_contents(&d).input, "ab");
    d.is_creating = true;
    d.backend = VcsBackend::Jj;
    d.error = Some("e".to_string());
    let c = form_contents(&d);
    assert_eq!(c.title, " New Workspace ");
    assert_eq!(c.label, "Workspace name:");
    assert_eq!(c.input, "Creating ab...");
    assert!(c.is_busy);
    assert_eq!(c.error.as_deref(), Some("e"));
    d.is_creating = false;
    d.branch_name = "\u{e9}".to_string();
    d.cursor_pos = 1;
    assert!(!can_draw(&d));
    d.cursor_pos = 2;
    assert!(can_draw(&d));
}
