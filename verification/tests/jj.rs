use gitopiary::config::RepoConfig;
use gitopiary::jj::cli::{finish, friendly_spawn_error};
use gitopiary::jj::query::{
    ahead_args, behind_args, bookmark_args, dirty_args, escape_revset_string, remote_args,
    root_args, workspace_list_args,
};
use gitopiary::jj::repo::{
    count_nonblank_lines, is_safe_workspace_name, list_workspace_paths, parse_bookmark_line,
    parse_workspace_entries, validate_jj_repo, workspace_candidates,
};
use gitopiary::jj::status::{
    load_branch_label, load_dirty_status, load_workspace_info, Answer, LoadProgress, WorkspaceLoad,
};
use gitopiary::jj::worktree::{created, create_workspace, forget_args, remove_workspace};
use gitopiary::paths::FilePath;
use gitopiary::state::types::Worktree;
use gitopiary::vcs::VcsBackend;

fn at(path: &str) -> FilePath {
    FilePath::from_text(path)
}

#[test]
fn parse_workspace_entries_multiple() {
    assert_eq!(
        parse_workspace_entries("default\tabc123\nfeature-x\tdef456\n"),
        vec![
            ("default".to_string(), "abc123".to_string()),
            ("feature-x".to_string(), "def456".to_string())
        ]
    );
}

#[test]
fn parse_workspace_entries_empty() {
    assert_eq!(parse_workspace_entries(""), Vec::<(String, String)>::new());
}

#[test]
fn parse_workspace_entries_skips_quoted_and_unsafe_names() {
    assert_eq!(
        parse_workspace_entries("default\tabc123\n\"with space\"\tdef456\n-dashname\tghi789\n"),
        vec![("default".to_string(), "abc123".to_string())]
    );
}

#[test]
fn parse_workspace_entries_allows_slash_namespaced_names() {
    assert_eq!(
        parse_workspace_entries("default\tabc123\nfeature/login\tdef456\n"),
        vec![
            ("default".to_string(), "abc123".to_string()),
            ("feature/login".to_string(), "def456".to_string())
        ]
    );
}

#[test]
fn parse_workspace_entries_rejects_dot_segments_in_slash_names() {
    assert_eq!(
        parse_workspace_entries("default\tabc123\nfeature/../escape\tdef456\n"),
        vec![("default".to_string(), "abc123".to_string())]
    );
}

#[test]
fn parse_workspace_entries_skips_malformed_line_without_tab() {
    assert_eq!(
        parse_workspace_entries("default\tabc123\nno-tab-here\n"),
        vec![("default".to_string(), "abc123".to_string())]
    );
}

#[test]
fn parse_bookmark_line_present() {
    assert_eq!(parse_bookmark_line("my-feature\n"), Some("my-feature".to_string()));
}

#[test]
fn parse_bookmark_line_empty() {
    assert_eq!(parse_bookmark_line("\n"), None);
    assert_eq!(parse_bookmark_line(""), None);
}

#[test]
fn parse_bookmark_line_multiple_picks_first_alphabetically() {
    assert_eq!(parse_bookmark_line("zeta,alpha,mid\n"), Some("alpha".to_string()));
}

#[test]
fn count_nonblank_lines_multi_and_empty() {
    assert_eq!(count_nonblank_lines("M foo\nA bar\n"), 2);
    assert_eq!(count_nonblank_lines("x\nx\nx\n"), 3);
    assert_eq!(count_nonblank_lines(""), 0);
    assert_eq!(count_nonblank_lines("\n"), 0);
}

#[test]
fn escape_revset_string_escapes_quotes_and_backslashes() {
    assert_eq!(escape_revset_string("plain"), "plain");
    assert_eq!(escape_revset_string(r#"weird"branch"#), r#"weird\"branch"#);
    assert_eq!(escape_revset_string(r"back\slash"), r"back\\slash");
}

#[test]
fn create_workspace_rejects_unsafe_name_without_shelling_out() {
    let result = create_workspace(&at("/nonexistent/repo"), "-dangerous");
    assert!(result.is_err());
}

fn load(answers: Vec<Answer>) -> (Worktree, Vec<Vec<String>>) {
    let mut asked: Vec<Vec<String>> = Vec::new();
    let mut at: WorkspaceLoad = load_workspace_info(
        at("/r/repo"),
        at("/r/repo"),
        true,
        "default".to_string(),
        "0123456789abcdef".to_string(),
    );
    for answer in answers.iter() {
        asked.push(at.next_args());
        match at.resume(answer) {
            LoadProgress::Done(w) => return (w, asked),
            LoadProgress::Pending(next) => at = next,
        }
    }
    panic!("more questions than answers: {:?}", asked)
}

fn ok(s: &str) -> Answer {
    Ok(s.to_string())
}

fn failed() -> Answer {
    Err("jj failed".to_string())
}

#[test]
fn push_status_shows_unpushed_commits_after_local_advance() {
    let (wt, _) = load(vec![ok("feature\n"), ok("x\n"), ok(""), ok(""), ok("")]);
    assert_eq!(wt.status.ahead, 0, "freshly pushed bookmark should have nothing unpushed");
    let (wt, _) = load(vec![ok("feature\n"), ok("x\n"), ok("x\n"), ok(""), ok("")]);
    assert_eq!(wt.status.ahead, 1, "one local commit not yet pushed to origin");
}

#[test]
fn rebase_status_shows_commits_behind_trunk_after_divergence() {
    let (wt, _) = load(vec![ok("feature\n"), ok(""), ok("x\n"), ok("")]);
    assert_eq!(wt.branch, "feature");
    assert_eq!(wt.status.behind, 1, "trunk (main) has one commit feature doesn't have");
}

#[test]
fn questions_are_asked_in_order() {
    let (wt, asked) = load(vec![ok("b\n"), ok("x\n"), ok("x\nx\n"), ok("x\n"), ok("M f\n")]);
    assert_eq!(
        asked,
        vec![
            bookmark_args(&at("/r/repo"), "0123456789abcdef"),
            remote_args(&at("/r/repo"), "b"),
            ahead_args(&at("/r/repo"), "b"),
            behind_args(&at("/r/repo"), "b"),
            dirty_args(&at("/r/repo")),
        ]
    );
    assert_eq!(wt.name, "default");
    assert_eq!(wt.path.to_text(), "/r/repo");
    assert_eq!(wt.branch, "b");
    assert!(wt.is_main);
    assert_eq!(wt.status.ahead, 2);
    assert_eq!(wt.status.behind, 1);
    assert_eq!(wt.status.uncommitted_changes, 1);
    assert!(wt.status.is_dirty);
    assert!(wt.pr.is_none());
    assert_eq!(wt.backend, VcsBackend::Jj);
}

#[test]
fn a_workspace_without_bookmark_is_asked_for_changes_only() {
    let (wt, asked) = load(vec![ok("\n"), ok("")]);
    assert_eq!(asked.len(), 2);
    assert_eq!(wt.branch, "01234567");
    assert_eq!((wt.status.ahead, wt.status.behind), (0, 0));
    assert!(!wt.status.is_dirty);
}

#[test]
fn failed_questions_degrade() {
    let (wt, _) = load(vec![failed(), failed()]);
    assert_eq!(wt.branch, "01234567");
    assert_eq!(wt.status.uncommitted_changes, 0);
    assert!(!wt.status.is_dirty);
    let (wt, _) = load(vec![ok("b\n"), failed(), failed(), failed()]);
    assert_eq!(wt.branch, "b");
    assert_eq!((wt.status.ahead, wt.status.behind), (0, 0));
    assert_eq!(load_dirty_status(&failed()), (0, false));
    assert_eq!(load_dirty_status(&ok("M a\nA b\n")), (2, true));
    assert_eq!(load_branch_label("abcdefghij", &failed()), ("abcdefgh".to_string(), None));
    assert_eq!(
        load_branch_label("abc", &ok("main\n")),
        ("main".to_string(), Some("main".to_string()))
    );
}

#[test]
fn queries_name_the_repository_and_escape_the_bookmark() {
    assert_eq!(root_args(&at("/r")), vec!["-R", "/r", "root"]);
    let config = RepoConfig { path: at("/r"), name: None };
    let listing = workspace_list_args(&config);
    assert_eq!(listing[0], "-R");
    assert_eq!(listing[1], "/r");
    assert!(listing.contains(&"list".to_string()));
    let remote = remote_args(&at("/r"), "we\"ird");
    assert!(remote.iter().any(|a| a.contains("we\\\"ird")));
    assert!(!remote.iter().any(|a| a.contains("we\"ird\"")));
    assert_eq!(dirty_args(&at("/w"))[1], "/w");
}

#[test]
fn safe_names() {
    assert!(is_safe_workspace_name("feature-x"));
    assert!(is_safe_workspace_name("feature/login"));
    assert!(!is_safe_workspace_name(""));
    assert!(!is_safe_workspace_name("-x"));
    assert!(!is_safe_workspace_name("a/../b"));
    assert!(!is_safe_workspace_name("a//b"));
    assert!(!is_safe_workspace_name("/a"));
    assert!(!is_safe_workspace_name("a b"));
}

#[test]
fn an_unusable_repository_is_named() {
    assert_eq!(validate_jj_repo(&at("/r"), &ok("/r\n")), Ok(()));
    assert_eq!(
        validate_jj_repo(&at("/r"), &failed()),
        Err("\"/r\" is not a usable jj repo".to_string())
    );
}

#[test]
fn workspaces_lie_beside_the_repository() {
    let config = RepoConfig { path: at("/w/repo"), name: None };
    let out = "default\tc0\nfeature/x\tc1\ngone\tc2\n";
    let candidates = workspace_candidates(&config, out);
    let found: Vec<String> = candidates.iter().map(|s| s.path.to_text()).collect();
    assert_eq!(found, vec!["/w/repo", "/w/feature/x", "/w/gone"]);
    let sources = list_workspace_paths(&config, &ok(out), &vec![true, true, false]).unwrap();
    assert_eq!(sources.len(), 2);
    assert!(sources[0].is_main);
    assert_eq!(sources[0].name.as_deref(), Some("default"));
    assert_eq!(sources[0].commit_id.as_deref(), Some("c0"));
    assert!(!sources[1].is_main);
    assert_eq!(sources[1].backend, VcsBackend::Jj);
    assert_eq!(sources[1].repo_path.to_text(), "/w/repo");
    let error = list_workspace_paths(&config, &failed(), &vec![]).unwrap_err();
    assert_eq!(error, "Failed to list jj workspaces for \"/w/repo\"");
}

#[test]
fn a_workspace_is_planned_beside_the_repository() {
    let plan = create_workspace(&at("/w/repo"), "feature/login").unwrap();
    assert_eq!(plan.workspace_path.to_text(), "/w/feature/login");
    assert_eq!(plan.make_dir.as_ref().map(|d| d.to_text()).as_deref(), Some("/w/feature"));
    assert_eq!(
        plan.args,
        vec!["-R", "/w/repo", "workspace", "add", "--name", "feature/login", "/w/feature/login"]
    );
    assert_eq!(created(plan, true, &ok("")).unwrap().to_text(), "/w/feature/login");
    let plan = create_workspace(&at("/w/repo"), "x").unwrap();
    assert!(created(plan, true, &failed()).is_err());
    let plan = create_workspace(&at("/w/repo"), "a/x").unwrap();
    assert!(created(plan, false, &ok("")).is_err());
    assert_eq!(
        create_workspace(&at("/w/repo"), "a b").unwrap_err(),
        "Invalid workspace name: \"a b\""
    );
    assert_eq!(create_workspace(&at("/"), "x").unwrap_err(), "Repo path has no parent");
}

#[test]
fn a_directory_is_deleted_only_when_jj_has_forgotten_it() {
    assert_eq!(
        forget_args(&at("/w/repo"), "x"),
        vec!["-R", "/w/repo", "workspace", "forget", "x"]
    );
    assert_eq!(remove_workspace(&at("/w/x"), "x", &ok("")).unwrap().to_text(), "/w/x");
    assert!(remove_workspace(&at("/w/x"), "x", &failed()).is_err());
}

#[test]
fn output_of_jj_is_text_or_an_error() {
    let args = vec!["root".to_string()];
    assert_eq!(finish(&args, true, b"out\n", b""), Ok("out\n".to_string()));
    assert_eq!(finish(&args, true, &[0x61, 0xff, 0x62], b""), Ok("a\u{fffd}b".to_string()));
    assert_eq!(
        finish(&args, false, b"", b" broken \n"),
        Err("jj root failed: broken".to_string())
    );
    assert_eq!(
        friendly_spawn_error(&args, true, "no such file"),
        "jj CLI not found on PATH \u{2014} install Jujutsu (https://jj-vcs.github.io) to manage this repository"
    );
    assert_eq!(
        friendly_spawn_error(&args, false, "denied"),
        "Failed to run jj root: denied"
    );
}

#[test]
fn paths_that_are_no_text_are_shown_to_jj() {
    let repo = FilePath { bytes: b"/w\xff/repo".to_vec() };
    assert_eq!(root_args(&repo), vec!["-R", "/w\u{fffd}/repo", "root"]);
    let plan = create_workspace(&repo, "x").unwrap();
    assert_eq!(plan.workspace_path.bytes, b"/w\xff/x");
    assert_eq!(plan.make_dir.as_ref().unwrap().bytes, b"/w\xff");
    assert_eq!(
        plan.args,
        vec!["-R", "/w\u{fffd}/repo", "workspace", "add", "--name", "x", "/w\u{fffd}/x"]
    );
    assert_eq!(
        created(plan, false, &ok("")).unwrap_err(),
        "Failed to create parent directory for \"/w\\xFF/x\""
    );
}
