use gitopiary::config::RepoConfig;
use gitopiary::events::AppEvent;
use gitopiary::github::pr::{pr_for_branch, PrInfo};
use gitopiary::keybindings::{Action, Binding, Keybindings};
use gitopiary::events::input::{KeyCode, KeyModifiers};
use gitopiary::paths::{FilePath, UserDir};
use gitopiary::state::refresh::{
    create_worktree, fetched, listed, loaded, repo_validated, sort_worktrees, worktree_created,
    worktree_removed, ListedRepo,
};
use gitopiary::state::types::{
    AddRepoDialog, AppState, FlatListItem, NewWorktreeDialog, PanelFocus, PrState, Repository,
    Worktree, WorktreeStatus,
};
use gitopiary::vcs::{CreatePlan, VcsBackend, WorktreeSource};

fn at(path: &str) -> FilePath {
    FilePath::from_text(path)
}

fn worktree(name: &str, is_main: bool, branch: &str) -> Worktree {
    Worktree {
        name: name.to_string(),
        path: at(&format!("/w/{}", name)),
        branch: branch.to_string(),
        is_main,
        status: WorktreeStatus { uncommitted_changes: 0, ahead: 0, behind: 0, is_dirty: false },
        pr: None,
        backend: VcsBackend::Git,
    }
}

fn repo(path: &str, worktrees: Vec<Worktree>, is_expanded: bool) -> Repository {
    let mut r = Repository::new(RepoConfig { path: at(path), name: None });
    r.worktrees = worktrees;
    r.is_expanded = is_expanded;
    r
}

fn no_keys() -> Keybindings {
    Keybindings { bindings: vec![] }
}

fn state() -> AppState {
    AppState::new(
        vec![
            repo("/a", vec![worktree("a0", true, "m"), worktree("a1", false, "x")], true),
            repo("/b", vec![worktree("b0", true, "m")], false),
            repo("/c", vec![], true),
            repo("/d", vec![worktree("d0", true, "m")], true),
        ],
        no_keys(),
    )
}

fn selection(s: &AppState) -> (usize, usize) {
    (s.selected_repo_idx, s.selected_worktree_idx)
}

#[test]
fn a_new_state_selects_the_first_worktree() {
    let s = state();
    assert_eq!(selection(&s), (0, 0));
    assert_eq!(s.focus, PanelFocus::WorktreeList);
    assert!(s.new_worktree_dialog.is_none());
    assert!(s.add_repo_dialog.is_none());
    assert!(s.delete_worktree_dialog.is_none());
    assert!(!s.is_refreshing);
    assert!(!s.should_quit);
    assert_eq!(s.selected_worktree().unwrap().name, "a0");
    assert_eq!(s.selected_worktree_path().unwrap().to_text(), "/w/a0");
}

#[test]
fn the_list_shows_expanded_repositories() {
    let s = state();
    assert_eq!(
        s.flat_list_items(),
        vec![
            FlatListItem::Repo { idx: 0, is_selected: true },
            FlatListItem::Worktree { repo_idx: 0, worktree_idx: 0, is_selected: true },
            FlatListItem::Worktree { repo_idx: 0, worktree_idx: 1, is_selected: false },
            FlatListItem::Repo { idx: 1, is_selected: false },
            FlatListItem::Repo { idx: 2, is_selected: false },
            FlatListItem::Repo { idx: 3, is_selected: false },
            FlatListItem::Worktree { repo_idx: 3, worktree_idx: 0, is_selected: false },
        ]
    );
    assert_eq!(s.selected_flat_idx(), 1);
}

#[test]
fn the_selection_moves_over_shown_worktrees_and_wraps() {
    let mut s = state();
    let mut seen = vec![];
    for _ in 0..4 {
        s.move_selection_down();
        seen.push(selection(&s));
    }
    assert_eq!(seen, vec![(0, 1), (3, 0), (0, 0), (0, 1)]);
    let mut back = vec![];
    for _ in 0..4 {
        s.move_selection_up();
        back.push(selection(&s));
    }
    assert_eq!(back, vec![(0, 0), (3, 0), (0, 1), (0, 0)]);
}

#[test]
fn down_and_up_undo_each_other() {
    let mut s = state();
    for start in [(0, 0), (0, 1), (3, 0)] {
        s.selected_repo_idx = start.0;
        s.selected_worktree_idx = start.1;
        s.move_selection_down();
        s.move_selection_up();
        assert_eq!(selection(&s), start);
        s.move_selection_up();
        s.move_selection_down();
        assert_eq!(selection(&s), start);
    }
}

#[test]
fn a_hidden_selection_counts_as_the_first_row() {
    let mut s = state();
    s.selected_repo_idx = 1;
    s.selected_worktree_idx = 0;
    assert_eq!(s.selected_flat_idx(), 0);
    s.move_selection_down();
    assert_eq!(selection(&s), (0, 0));
    let mut empty = AppState::new(vec![], no_keys());
    empty.move_selection_down();
    empty.move_selection_up();
    assert_eq!(selection(&empty), (0, 0));
    assert!(empty.selected_worktree().is_none());
    assert!(empty.selected_worktree_path().is_none());
}

#[test]
fn repositories_are_named_by_configuration_or_path() {
    let named = RepoConfig { path: at("/x/y"), name: Some("mine".to_string()) };
    assert_eq!(Repository::new(named).display_name, "mine");
    assert_eq!(repo("/x/y", vec![], true).display_name, "y");
    assert_eq!(repo("/", vec![], true).display_name, "/");
}

#[test]
fn dialogs_start_empty() {
    let d = NewWorktreeDialog::new(2, VcsBackend::Jj);
    assert_eq!((d.repo_idx, d.backend, d.cursor_pos), (2, VcsBackend::Jj, 0));
    assert!(d.branch_name.is_empty() && d.error.is_none() && !d.is_creating);
    let d = AddRepoDialog::new();
    assert!(d.path_input.is_empty() && d.error.is_none() && !d.is_adding && d.cursor_pos == 0);
}

fn home_at(home: Option<&str>) -> UserDir {
    match home {
        Some(h) => UserDir::At(at(h)),
        None => UserDir::Missing,
    }
}

fn expanded(input: &str, home: Option<&str>) -> String {
    let mut d = AddRepoDialog::new();
    d.path_input = input.to_string();
    d.expanded_path_in(&home_at(home)).to_text()
}

#[test]
fn a_leading_tilde_is_the_home_directory() {
    assert_eq!(expanded("~/src/x", Some("/home/u")), "/home/u/src/x");
    assert_eq!(expanded("~", Some("/home/u")), "/home/u/");
    assert_eq!(expanded("~x", Some("/home/u")), "/home/u/x");
    assert_eq!(expanded("~/x", None), "/x");
    assert_eq!(expanded("/a/~", Some("/home/u")), "/a/~");
    let mut d = AddRepoDialog::new();
    d.path_input = "~/x".to_string();
    let home = dirs::home_dir().unwrap_or_else(|| std::path::PathBuf::from("/"));
    assert_eq!(d.expanded_path().bytes, home.join("x").into_os_string().into_encoded_bytes());
}

#[test]
fn only_the_first_tilde_is_expanded() {
    assert_eq!(expanded("~/~/x", Some("/home/u")), "/home/u/~/x");
    assert_eq!(expanded("~~/x", Some("/home/u")), "/home/u/~/x");
    assert_eq!(expanded("~/a/~", Some("/home/u")), "/home/u/a/~");
    assert_eq!(expanded("~//etc", Some("/home/u")), "/home/u/etc");
    assert_eq!(expanded("~///", Some("/home/u")), "/home/u/");
    assert_eq!(expanded("~/x", Some("/")), "/x");
    assert_eq!(expanded("", Some("/home/u")), "");
}

#[test]
fn a_home_directory_need_not_be_text() {
    let home = UserDir::At(FilePath { bytes: b"/home/\xff\xfe".to_vec() });
    let mut d = AddRepoDialog::new();
    d.path_input = "~/\u{e9}".to_string();
    assert_eq!(d.expanded_path_in(&home).bytes, b"/home/\xff\xfe/\xc3\xa9");
    d.path_input = "/x".to_string();
    assert_eq!(d.expanded_path_in(&home).bytes, b"/x");
}

#[test]
fn the_first_binding_of_a_key_counts() {
    let plain = KeyModifiers {
        shift: false,
        control: false,
        alt: false,
        super_key: false,
        hyper: false,
        meta: false,
    };
    let control = KeyModifiers { control: true, ..plain };
    let binding = |code, modifiers, action, hint: &str| Binding {
        code,
        modifiers,
        action,
        hint: hint.to_string(),
    };
    let kb = Keybindings {
        bindings: vec![
            binding(KeyCode::Char('q'), plain, Action::Quit, "q"),
            binding(KeyCode::Char('q'), plain, Action::Refresh, "second"),
            binding(KeyCode::Char('c'), control, Action::Quit, "C-c"),
        ],
    };
    assert_eq!(kb.get(KeyCode::Char('q'), plain), Some(Action::Quit));
    assert_eq!(kb.get(KeyCode::Char('q'), control), None);
    assert_eq!(kb.get(KeyCode::Char('c'), control), Some(Action::Quit));
    assert_eq!(kb.hint_for(Action::Quit), Some("q".to_string()));
    assert_eq!(kb.hint_for(Action::Refresh), Some("second".to_string()));
    assert_eq!(kb.hint_for(Action::AddRepo), None);
}

#[test]
fn worktrees_are_sorted_with_the_main_one_first() {
    let sorted = sort_worktrees(vec![
        worktree("zeta", false, "1"),
        worktree("alpha", false, "2"),
        worktree("main", true, "3"),
        worktree("alpha", false, "4"),
        worktree("B", false, "5"),
    ]);
    let order: Vec<(&str, &str)> =
        sorted.iter().map(|w| (w.name.as_str(), w.branch.as_str())).collect();
    assert_eq!(
        order,
        vec![("main", "3"), ("B", "5"), ("alpha", "2"), ("alpha", "4"), ("zeta", "1")]
    );
    assert!(sort_worktrees(vec![]).is_empty());
}

#[test]
fn loading_leaves_failures_out() {
    let event = loaded(
        RepoConfig { path: at("/r"), name: None },
        true,
        vec![
            Ok(worktree("b", false, "b")),
            Err("broken".to_string()),
            Ok(worktree("r", true, "m")),
        ],
    );
    match event {
        AppEvent::RepoLoaded(r) => {
            assert_eq!(r.backend, VcsBackend::Jj);
            assert_eq!(r.config.path.to_text(), "/r");
            let names: Vec<&str> = r.worktrees.iter().map(|w| w.name.as_str()).collect();
            assert_eq!(names, vec!["r", "b"]);
        }
        other => panic!("{:?}", other),
    }
}

#[test]
fn a_failed_listing_is_reported() {
    match listed(Err("no repository".to_string())) {
        ListedRepo::Failed(AppEvent::RefreshError(e)) => assert_eq!(e, "no repository"),
        other => panic!("{:?}", other),
    }
    let source = WorktreeSource {
        path: at("/r"),
        is_main: true,
        name: None,
        backend: VcsBackend::Jj,
        repo_path: at("/r"),
        commit_id: None,
    };
    match listed(Ok(vec![source])) {
        ListedRepo::Load { sources, sequential } => {
            assert_eq!(sources.len(), 1);
            assert!(sequential);
        }
        other => panic!("{:?}", other),
    }
}

fn info(number: u64, state: &str, head_ref: &str) -> PrInfo {
    PrInfo {
        number,
        title: format!("pr {}", number),
        state: state.to_string(),
        is_draft: false,
        url: String::new(),
        head_ref: head_ref.to_string(),
    }
}

#[test]
fn the_first_pull_request_of_a_branch_is_its_badge() {
    let prs = vec![
        info(1, "MERGED", "a"),
        info(2, "OPEN", "b"),
        info(3, "CLOSED", "b"),
        info(4, "CLOSED", "c"),
    ];
    assert_eq!(pr_for_branch(&prs, "a").unwrap().state, PrState::Merged);
    let b = pr_for_branch(&prs, "b").unwrap();
    assert_eq!((b.number, b.state, b.title.as_str()), (2, PrState::Open, "pr 2"));
    assert_eq!(pr_for_branch(&prs, "c").unwrap().state, PrState::Closed);
    assert!(pr_for_branch(&prs, "d").is_none());
}

#[test]
fn pull_requests_that_cannot_be_had_count_as_none() {
    match fetched(at("/r"), Err("no gh".to_string())) {
        AppEvent::PrsFetched { repo_path, prs } => {
            assert_eq!(repo_path.to_text(), "/r");
            assert!(prs.is_empty());
        }
        other => panic!("{:?}", other),
    }
    match fetched(at("/r"), Ok(vec![info(1, "OPEN", "a")])) {
        AppEvent::PrsFetched { prs, .. } => assert_eq!(prs.len(), 1),
        other => panic!("{:?}", other),
    }
}

#[test]
fn outcomes_become_events() {
    assert!(matches!(create_worktree(false, &at("/r/x"), "any name"), Ok(CreatePlan::Git { .. })));
    assert!(matches!(create_worktree(true, &at("/r/x"), "name"), Ok(CreatePlan::Jj(_))));
    match create_worktree(true, &at("/r/x"), "any name") {
        Err(AppEvent::WorktreeCreateError(e)) => {
            assert_eq!(e, "Invalid workspace name: \"any name\"")
        }
        other => panic!("{:?}", other),
    }
    assert!(matches!(
        worktree_created(at("/r"), Ok(at("/w"))),
        AppEvent::WorktreeCreated { repo_path, worktree_path }
            if repo_path.to_text() == "/r" && worktree_path.to_text() == "/w"
    ));
    assert!(matches!(
        worktree_created(at("/r"), Err("e".to_string())),
        AppEvent::WorktreeCreateError(e) if e == "e"
    ));
    assert!(matches!(
        worktree_removed(at("/r"), at("/w"), Ok(())),
        AppEvent::WorktreeDeleted { repo_path, worktree_path }
            if repo_path.to_text() == "/r" && worktree_path.to_text() == "/w"
    ));
    assert!(matches!(
        worktree_removed(at("/r"), at("/w"), Err("e".to_string())),
        AppEvent::WorktreeDeleteError(e) if e == "e"
    ));
    assert!(matches!(
        repo_validated(at("/r"), Ok(VcsBackend::Jj)),
        AppEvent::RepoAdded(p) if p.to_text() == "/r"
    ));
    assert!(matches!(
        repo_validated(at("/r"), Err("e".to_string())),
        AppEvent::RepoAddError(e) if e == "e"
    ));
}
