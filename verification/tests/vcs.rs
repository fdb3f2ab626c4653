use std::path::Path;

use gitopiary::config::RepoConfig;
use gitopiary::git::repo::{
    get_ahead_behind, get_branch_name, get_worktree_status, list_worktree_paths,
    load_worktree_info, Head, LinkedWorktrees, WorktreeReading, INDEX_DELETED, INDEX_MODIFIED,
    INDEX_NEW, INDEX_RENAMED, INDEX_TYPECHANGE, UNCOMMITTED, WT_DELETED, WT_MODIFIED, WT_NEW,
    WT_RENAMED, WT_TYPECHANGE,
};
use gitopiary::paths::FilePath;
use gitopiary::vcs;
use gitopiary::vcs::{
    detect_backend, dot_jj_path, needs_sequential_loading, paths_match, validate_repo_path,
    CreatePlan, FoundWorktree, LoadPlan, LocatedSource, RemovePlan, VcsBackend, WorktreeSource,
};

fn at(path: &str) -> FilePath {
    FilePath::from_text(path)
}

fn source(path: &str, backend: VcsBackend) -> WorktreeSource {
    WorktreeSource {
        path: at(path),
        is_main: false,
        name: None,
        backend,
        repo_path: at(path),
        commit_id: None,
    }
}

#[test]
fn needs_sequential_loading_true_when_any_source_is_jj() {
    let sources = vec![source("/a", VcsBackend::Git), source("/b", VcsBackend::Jj)];
    assert!(needs_sequential_loading(&sources));
}

#[test]
fn needs_sequential_loading_false_when_all_git() {
    let sources = vec![source("/a", VcsBackend::Git), source("/b", VcsBackend::Git)];
    assert!(!needs_sequential_loading(&sources));
}

#[test]
fn needs_sequential_loading_false_when_empty() {
    assert!(!needs_sequential_loading(&[]));
}

fn of(path: &Path) -> FilePath {
    FilePath { bytes: path.as_os_str().as_encoded_bytes().to_vec() }
}

fn has_dot_jj(path: &Path) -> bool {
    Path::new(&dot_jj_path(&of(path)).to_text()).exists()
}

fn opened(path: &Path) -> Result<String, String> {
    match git2::Repository::open(path) {
        Ok(_) => Ok(String::new()),
        Err(e) => Err(e.to_string()),
    }
}

#[test]
fn detects_git_as_fallback_when_neither_present() {
    let dir = tempfile::tempdir().unwrap();
    assert_eq!(detect_backend(has_dot_jj(dir.path())), VcsBackend::Git);
}

fn subdirectory(parent: &Path, name: &str) -> tempfile::TempDir {
    tempfile::Builder::new().prefix(name).rand_bytes(0).tempdir_in(parent).unwrap()
}

#[test]
fn detects_jj_when_dot_jj_present() {
    let dir = tempfile::tempdir().unwrap();
    let _dot_jj = subdirectory(dir.path(), ".jj");
    assert_eq!(detect_backend(has_dot_jj(dir.path())), VcsBackend::Jj);
}

#[test]
fn detects_git_when_no_dot_jj() {
    let dir = tempfile::tempdir().unwrap();
    let _dot_git = subdirectory(dir.path(), ".git");
    assert_eq!(detect_backend(has_dot_jj(dir.path())), VcsBackend::Git);
}

#[test]
fn validate_repo_path_accepts_plain_git_repo() {
    let dir = tempfile::tempdir().unwrap();
    let repo_path = dir.path().join("repo");
    git2::Repository::init(&repo_path).unwrap();
    let path = of(&repo_path);
    assert_eq!(
        validate_repo_path(&path, repo_path.exists(), has_dot_jj(&repo_path), &opened(&repo_path)),
        Ok(VcsBackend::Git)
    );
}

#[test]
fn a_real_repository_is_read() {
    let dir = tempfile::tempdir().unwrap();
    let repo_path = dir.path().join("repo");
    let repo = git2::Repository::init(&repo_path).unwrap();
    let who = git2::Signature::now("t", "t@t.com").unwrap();
    let tree = repo.find_tree(repo.index().unwrap().write_tree().unwrap()).unwrap();
    let first = repo.commit(Some("HEAD"), &who, &who, "init", &tree, &[]).unwrap();
    let linked_path = dir.path().join("feature-y");
    let linked = repo.worktree("feature-y", &linked_path, None).unwrap();
    let config = RepoConfig { path: of(&repo_path), name: None };
    let listed = LinkedWorktrees::Listed(vec![Some(of(linked.path()))]);
    let paths = list_worktree_paths(&config, listed).unwrap();
    let canonical =
        |p: &FilePath| Path::new(&p.to_text()).canonicalize().ok().map(|c| of(&c));
    let git = Ok(paths
        .into_iter()
        .map(|(path, is_main)| FoundWorktree { canonical: canonical(&path), path, is_main })
        .collect());
    let main = workspace(
        &config.path.to_text(),
        &canonical(&config.path).unwrap().to_text(),
        "default",
    );
    let sources = vcs::list_worktree_paths(&config, git, Some(Ok(vec![main]))).unwrap();
    assert_eq!(sources.len(), 2);
    assert!(sources.iter().any(|s| s.path.bytes == config.path.bytes
        && s.is_main
        && s.backend == VcsBackend::Jj));
    assert!(sources.iter().any(|s| canonical(&s.path).unwrap().bytes
        == canonical(&of(&linked_path)).unwrap().bytes
        && s.backend == VcsBackend::Git));
    let id: [u8; 20] = first.as_bytes().try_into().unwrap();
    assert_eq!(
        get_branch_name(&head(false, None, Some(id))),
        Some(first.to_string()[..8].to_string())
    );
}

#[test]
fn validate_repo_path_rejects_nonexistent_path() {
    let dir = tempfile::tempdir().unwrap();
    let missing = dir.path().join("does-not-exist");
    let path = of(&missing);
    let result =
        validate_repo_path(&path, missing.exists(), has_dot_jj(&missing), &opened(&missing));
    assert!(result.is_err());
    assert_eq!(result, Err(format!("Path does not exist: {}", missing.display())));
}

#[test]
fn validate_repo_path_rejects_plain_directory() {
    let dir = tempfile::tempdir().unwrap();
    let path = of(dir.path());
    let result =
        validate_repo_path(&path, dir.path().exists(), has_dot_jj(dir.path()), &opened(dir.path()));
    assert!(result.is_err());
    assert!(result.unwrap_err().starts_with("Not a git or jj repository: "));
}

#[test]
fn validation_prefers_jj() {
    let yes: Result<String, String> = Ok("/r".to_string());
    let no: Result<String, String> = Err("why".to_string());
    assert_eq!(validate_repo_path(&at("/r"), true, true, &yes), Ok(VcsBackend::Jj));
    assert_eq!(validate_repo_path(&at("/r"), true, false, &yes), Ok(VcsBackend::Git));
    assert_eq!(
        validate_repo_path(&at("/r"), true, true, &no),
        Err("\"/r\" is not a usable jj repo".to_string())
    );
    assert_eq!(
        validate_repo_path(&at("/r"), true, false, &no),
        Err("Not a git or jj repository: why".to_string())
    );
    assert_eq!(detect_backend(true), VcsBackend::Jj);
    assert_eq!(dot_jj_path(&at("/r")).to_text(), "/r/.jj");
}

#[test]
fn messages_show_paths_that_are_no_text() {
    let path = FilePath { bytes: b"/r/\xff\"\xc3\xa9".to_vec() };
    let no: Result<String, String> = Err("why".to_string());
    assert_eq!(
        validate_repo_path(&path, true, true, &no),
        Err("\"/r/\\xFF\\\"\u{e9}\" is not a usable jj repo".to_string())
    );
    assert_eq!(
        validate_repo_path(&path, false, true, &no),
        Err("Path does not exist: /r/\u{fffd}\"\u{e9}".to_string())
    );
}

fn found(path: &str, canonical: &str, is_main: bool) -> FoundWorktree {
    FoundWorktree { path: at(path), canonical: Some(at(canonical)), is_main }
}

fn workspace(path: &str, canonical: &str, name: &str) -> LocatedSource {
    LocatedSource {
        source: WorktreeSource {
            path: at(path),
            is_main: name == "default",
            name: Some(name.to_string()),
            backend: VcsBackend::Jj,
            repo_path: at("/var/repo"),
            commit_id: Some(format!("c-{}", name)),
        },
        canonical: Some(at(canonical)),
    }
}

#[test]
fn colocated_repositories_show_what_either_backend_knows() {
    let config = RepoConfig { path: at("/var/repo"), name: None };
    let git = Ok(vec![
        found("/var/repo", "/private/var/repo", true),
        found("/private/var/feature-y", "/private/var/feature-y", false),
    ]);
    let jj = Some(Ok(vec![
        workspace("/var/repo", "/private/var/repo", "default"),
        workspace("/var/only-jj", "/private/var/only-jj", "only-jj"),
    ]));
    let sources = vcs::list_worktree_paths(&config, git, jj).unwrap();
    assert_eq!(sources.len(), 3);
    assert_eq!(sources[0].path.to_text(), "/var/repo");
    assert!(sources[0].is_main);
    assert_eq!(sources[0].backend, VcsBackend::Jj);
    assert_eq!(sources[0].name.as_deref(), Some("default"));
    assert_eq!(sources[0].commit_id.as_deref(), Some("c-default"));
    assert_eq!(sources[1].path.to_text(), "/private/var/feature-y");
    assert_eq!(sources[1].backend, VcsBackend::Git);
    assert_eq!(sources[1].name, None);
    assert_eq!(sources[2].path.to_text(), "/var/only-jj");
    assert_eq!(sources[2].backend, VcsBackend::Jj);
}

#[test]
fn a_failed_listing_counts_as_nothing() {
    let config = RepoConfig { path: at("/r"), name: None };
    let sources = vcs::list_worktree_paths(
        &config,
        Ok(vec![found("/r", "/r", true)]),
        Some(Err("no jj".to_string())),
    )
    .unwrap();
    assert_eq!(sources.len(), 1);
    assert_eq!(sources[0].backend, VcsBackend::Git);
    assert_eq!(
        vcs::list_worktree_paths(&config, Err("no git".to_string()), None).unwrap_err(),
        "Not a git or jj repository: \"/r\""
    );
}

#[test]
fn paths_are_compared_by_their_canonical_form() {
    let a = Some(at("/x"));
    assert!(paths_match(&at("/1"), &a, &at("/2"), &a));
    assert!(!paths_match(&at("/1"), &a, &at("/1"), &Some(at("/y"))));
    assert!(paths_match(&at("/1"), &None, &at("/1/"), &a));
    assert!(!paths_match(&at("/1"), &None, &at("/2"), &None));
}

#[test]
fn sources_load_with_their_backend() {
    match vcs::load_worktree_info(source("/a", VcsBackend::Git)) {
        LoadPlan::Git { path, is_main } => {
            assert_eq!(path.to_text(), "/a");
            assert!(!is_main);
        }
        LoadPlan::Jj(_) => panic!("not a workspace"),
    }
    match vcs::load_worktree_info(workspace("/var/x", "/var/x", "x").source) {
        LoadPlan::Jj(load) => {
            assert_eq!(load.repo_path.to_text(), "/var/repo");
            assert_eq!(load.workspace_path.to_text(), "/var/x");
            assert_eq!(load.name, "x");
            assert_eq!(load.commit_id, "c-x");
        }
        LoadPlan::Git { .. } => panic!("not a git worktree"),
    }
}

#[test]
fn creation_and_removal_go_to_the_backend() {
    assert!(matches!(
        vcs::create_workspace(VcsBackend::Git, &at("/r/repo"), "a b"),
        Ok(CreatePlan::Git { .. })
    ));
    assert!(matches!(
        vcs::create_workspace(VcsBackend::Jj, &at("/r/repo"), "x"),
        Ok(CreatePlan::Jj(_))
    ));
    assert_eq!(
        vcs::create_workspace(VcsBackend::Jj, &at("/r/repo"), "a b").unwrap_err(),
        "Invalid workspace name: \"a b\""
    );
    match vcs::remove_workspace(VcsBackend::Git, &at("/r/repo"), &at("/r/x"), "x") {
        RemovePlan::Git { repo_path, workspace_path } => {
            assert_eq!((repo_path.to_text(), workspace_path.to_text()), ("/r/repo".into(), "/r/x".into()));
        }
        RemovePlan::Jj { .. } => panic!("not jj's"),
    }
    match vcs::remove_workspace(VcsBackend::Jj, &at("/r/repo"), &at("/r/x"), "x") {
        RemovePlan::Jj { forget_args, workspace_path, name } => {
            assert_eq!(forget_args, vec!["-R", "/r/repo", "workspace", "forget", "x"]);
            assert_eq!((workspace_path.to_text().as_str(), name.as_str()), ("/r/x", "x"));
        }
        RemovePlan::Git { .. } => panic!("not git's"),
    }
}

#[test]
fn the_configured_path_is_the_main_worktree() {
    let config = RepoConfig { path: at("/r"), name: None };
    let strange = FilePath { bytes: b"/\xff".to_vec() };
    let linked =
        LinkedWorktrees::Listed(vec![Some(at("/a")), None, Some(strange), Some(at("/b"))]);
    let listed: Vec<(Vec<u8>, bool)> = list_worktree_paths(&config, linked)
        .unwrap()
        .into_iter()
        .map(|(path, is_main)| (path.bytes, is_main))
        .collect();
    assert_eq!(
        listed,
        vec![
            (b"/r".to_vec(), true),
            (b"/a".to_vec(), false),
            (b"/\xff".to_vec(), false),
            (b"/b".to_vec(), false)
        ]
    );
    assert_eq!(
        list_worktree_paths(&config, LinkedWorktrees::Unopened).unwrap_err(),
        "Failed to open git repo at \"/r\""
    );
    assert_eq!(
        list_worktree_paths(&config, LinkedWorktrees::Unlisted).unwrap_err(),
        "Failed to list worktrees"
    );
}

fn head(is_branch: bool, shorthand: Option<&str>, target: Option<[u8; 20]>) -> Option<Head> {
    Some(Head { is_branch, shorthand: shorthand.map(|s| s.to_string()), target })
}

#[test]
fn a_detached_head_is_shown_by_its_id() {
    let mut id = [0u8; 20];
    id[0] = 0xde;
    id[1] = 0xad;
    id[2] = 0xbe;
    id[3] = 0x0f;
    id[4] = 0xff;
    assert_eq!(get_branch_name(&head(true, Some("main"), Some(id))), Some("main".to_string()));
    assert_eq!(get_branch_name(&head(true, None, Some(id))), None);
    assert_eq!(
        get_branch_name(&head(false, Some("HEAD"), Some(id))),
        Some("deadbe0f".to_string())
    );
    assert_eq!(get_branch_name(&head(false, Some("HEAD"), None)), None);
    assert_eq!(get_branch_name(&None), None);
}

#[test]
fn status_flags_are_those_of_git2() {
    assert_eq!(INDEX_NEW, git2::Status::INDEX_NEW.bits());
    assert_eq!(INDEX_MODIFIED, git2::Status::INDEX_MODIFIED.bits());
    assert_eq!(INDEX_DELETED, git2::Status::INDEX_DELETED.bits());
    assert_eq!(INDEX_RENAMED, git2::Status::INDEX_RENAMED.bits());
    assert_eq!(INDEX_TYPECHANGE, git2::Status::INDEX_TYPECHANGE.bits());
    assert_eq!(WT_NEW, git2::Status::WT_NEW.bits());
    assert_eq!(WT_MODIFIED, git2::Status::WT_MODIFIED.bits());
    assert_eq!(WT_DELETED, git2::Status::WT_DELETED.bits());
    assert_eq!(WT_TYPECHANGE, git2::Status::WT_TYPECHANGE.bits());
    assert_eq!(WT_RENAMED, git2::Status::WT_RENAMED.bits());
    assert_eq!(UNCOMMITTED, 0xf9f);
    assert_eq!(!git2::Status::all().bits(), 0xffff_3060);
}

#[test]
fn ignored_and_conflicted_files_are_no_changes() {
    let statuses = vec![
        WT_NEW,
        INDEX_MODIFIED | WT_MODIFIED,
        0,
        git2::Status::IGNORED.bits(),
        git2::Status::CONFLICTED.bits(),
        WT_RENAMED,
    ];
    let status = get_worktree_status(&statuses, Some((2, 5)));
    assert_eq!(status.uncommitted_changes, 3);
    assert!(status.is_dirty);
    assert_eq!((status.ahead, status.behind), (2, 5));
    let clean = get_worktree_status(&vec![git2::Status::IGNORED.bits()], None);
    assert_eq!(clean.uncommitted_changes, 0);
    assert!(!clean.is_dirty);
    assert_eq!((clean.ahead, clean.behind), (0, 0));
    assert_eq!(get_ahead_behind(Some((1, 2))), Some((1, 2)));
    assert_eq!(get_ahead_behind(None), None);
}

#[test]
fn a_worktree_is_named_by_its_directory() {
    let reading = WorktreeReading {
        head: head(true, Some("main"), None),
        statuses: Some(vec![WT_NEW]),
        ahead_behind: None,
    };
    let w = load_worktree_info(at("/r/feature"), false, Some(reading)).unwrap();
    assert_eq!(w.name, "feature");
    assert_eq!(w.branch, "main");
    assert_eq!(w.backend, VcsBackend::Git);
    assert!(w.status.is_dirty);
    assert!(w.pr.is_none());
    let reading = WorktreeReading { head: None, statuses: Some(vec![]), ahead_behind: None };
    let strange = FilePath { bytes: b"/r/x\xff/".to_vec() };
    let w = load_worktree_info(strange, false, Some(reading)).unwrap();
    assert_eq!((w.name.as_str(), &w.path.bytes[..]), ("x\u{fffd}", &b"/r/x\xff/"[..]));
    let reading = WorktreeReading { head: None, statuses: Some(vec![]), ahead_behind: None };
    let w = load_worktree_info(at("/"), true, Some(reading)).unwrap();
    assert_eq!(w.name, "HEAD");
    assert_eq!(w.branch, "HEAD");
    assert_eq!(
        load_worktree_info(at("/r"), true, None).unwrap_err(),
        "Failed to open worktree at \"/r\""
    );
    let reading = WorktreeReading { head: None, statuses: None, ahead_behind: None };
    assert_eq!(
        load_worktree_info(at("/r"), true, Some(reading)).unwrap_err(),
        "Failed to get repo statuses"
    );
}
