use gitopiary::cache::{
    cache_path, cache_path_in, hydrate_repo, hydrate_repos, snapshot, Cache, CachedPr, CachedRepo,
    CachedWorktree,
};
use gitopiary::config::RepoConfig;
use gitopiary::paths::{FilePath, UserDir};
use gitopiary::state::types::{PrState, PullRequest, Repository, Worktree, WorktreeStatus};
use gitopiary::vcs::VcsBackend;

fn at(path: &str) -> FilePath {
    FilePath::from_text(path)
}

fn config(path: &str) -> RepoConfig {
    RepoConfig { path: at(path), name: None }
}

fn worktree(name: &str, backend: VcsBackend, pr: Option<PrState>) -> Worktree {
    Worktree {
        name: name.to_string(),
        path: at(&format!("/w/{}", name)),
        branch: format!("b-{}", name),
        is_main: name == "main",
        status: WorktreeStatus { uncommitted_changes: 3, ahead: 1, behind: 2, is_dirty: true },
        pr: pr.map(|state| PullRequest {
            number: 7,
            title: "t".to_string(),
            state,
            is_draft: true,
            url: "u".to_string(),
        }),
        backend,
    }
}

fn stored_worktree(backend: Option<&str>, state: &str) -> CachedWorktree {
    CachedWorktree {
        name: "n".to_string(),
        path: at("/p"),
        branch: "b".to_string(),
        is_main: false,
        uncommitted_changes: 0,
        ahead: 0,
        behind: 0,
        is_dirty: false,
        pr: Some(CachedPr {
            number: 1,
            title: String::new(),
            state: state.to_string(),
            is_draft: false,
            url: String::new(),
        }),
        backend: backend.map(|b| b.to_string()),
    }
}

#[test]
fn what_was_saved_comes_back() {
    let mut repo = Repository::new(config("/w/repo"));
    repo.backend = VcsBackend::Jj;
    repo.worktrees = vec![
        worktree("main", VcsBackend::Jj, Some(PrState::Merged)),
        worktree("x", VcsBackend::Git, Some(PrState::Closed)),
        worktree("y", VcsBackend::Git, Some(PrState::Open)),
        worktree("z", VcsBackend::Jj, None),
    ];
    let cache = snapshot(&vec![Repository::new(config("/other")), repo]);
    let back = hydrate_repo(config("/w/repo/"), &cache);
    assert_eq!(back.backend, VcsBackend::Jj);
    assert_eq!(back.display_name, "repo");
    assert!(back.is_expanded);
    let names: Vec<&str> = back.worktrees.iter().map(|w| w.name.as_str()).collect();
    assert_eq!(names, vec!["main", "x", "y", "z"]);
    let states: Vec<Option<PrState>> =
        back.worktrees.iter().map(|w| w.pr.as_ref().map(|p| p.state)).collect();
    assert_eq!(
        states,
        vec![Some(PrState::Merged), Some(PrState::Closed), Some(PrState::Open), None]
    );
    let backends: Vec<VcsBackend> = back.worktrees.iter().map(|w| w.backend).collect();
    assert_eq!(
        backends,
        vec![VcsBackend::Jj, VcsBackend::Git, VcsBackend::Git, VcsBackend::Jj]
    );
    assert_eq!(back.worktrees[0].path.to_text(), "/w/main");
    assert_eq!(back.worktrees[0].branch, "b-main");
    assert!(back.worktrees[0].is_main);
    assert_eq!(
        back.worktrees[0].status,
        WorktreeStatus { uncommitted_changes: 3, ahead: 1, behind: 2, is_dirty: true }
    );
    let pr = back.worktrees[0].pr.as_ref().unwrap();
    assert_eq!((pr.number, pr.title.as_str(), pr.is_draft, pr.url.as_str()), (7, "t", true, "u"));
}

#[test]
fn an_unknown_repository_starts_empty() {
    let back = hydrate_repo(config("/w/repo"), &Cache::default());
    assert!(back.worktrees.is_empty());
    assert_eq!(back.backend, VcsBackend::Git);
    let repos = hydrate_repos(&vec![config("/a"), config("/b")], &Cache::default());
    assert_eq!(repos.len(), 2);
    assert_eq!(repos[1].config.path.to_text(), "/b");
}

#[test]
fn files_without_backends_load_as_git() {
    let cache = Cache {
        repos: vec![CachedRepo {
            path: at("/r"),
            backend: None,
            worktrees: vec![stored_worktree(None, "weird"), stored_worktree(Some("hg"), "merged")],
        }],
    };
    let back = hydrate_repo(config("/r"), &cache);
    assert_eq!(back.backend, VcsBackend::Git);
    assert_eq!(back.worktrees[0].backend, VcsBackend::Git);
    assert_eq!(back.worktrees[0].pr.as_ref().unwrap().state, PrState::Open);
    assert_eq!(back.worktrees[1].backend, VcsBackend::Git);
    assert_eq!(back.worktrees[1].pr.as_ref().unwrap().state, PrState::Merged);
}

#[test]
fn the_cache_file_has_a_fixed_name() {
    assert_eq!(
        cache_path_in(&UserDir::At(at("/home/u/.cache"))).to_text(),
        "/home/u/.cache/gitopiary/worktrees.json"
    );
    assert_eq!(cache_path_in(&UserDir::Missing).to_text(), "/tmp/gitopiary/worktrees.json");
    let expected = dirs::cache_dir()
        .unwrap_or_else(|| std::path::PathBuf::from("/tmp"))
        .join("gitopiary")
        .join("worktrees.json");
    assert_eq!(cache_path().bytes, expected.into_os_string().into_encoded_bytes());
}

#[test]
fn a_cache_directory_need_not_be_text() {
    let dir = UserDir::At(FilePath { bytes: b"/c\xff/".to_vec() });
    assert_eq!(cache_path_in(&dir).bytes, b"/c\xff/gitopiary/worktrees.json");
}

#[test]
fn paths_that_are_no_text_come_back_from_the_cache() {
    let path = || FilePath { bytes: b"/w/\xfe".to_vec() };
    let mut repo = Repository::new(RepoConfig { path: path(), name: None });
    assert_eq!(repo.display_name, "\u{fffd}");
    repo.backend = VcsBackend::Jj;
    let mut w = worktree("main", VcsBackend::Git, None);
    w.path = path();
    repo.worktrees = vec![w];
    let cache = snapshot(&vec![Repository::new(config("/w/\u{fffd}")), repo]);
    let back = hydrate_repo(RepoConfig { path: path(), name: None }, &cache);
    assert_eq!(back.backend, VcsBackend::Jj);
    assert_eq!(back.worktrees[0].path.bytes, b"/w/\xfe");
}
