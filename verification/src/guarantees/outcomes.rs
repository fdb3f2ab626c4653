//! What the operations on repositories come to, in terms of what they are
//! given.
use vstd::prelude::*;
use vstd::utf8;

use crate::app::App;
use crate::bytes;
use crate::cache;
use crate::cache::Cache;
use crate::config::RepoConfig;
use crate::events::{AppEvent, AppEventView};
use crate::git;
use crate::git::repo::{LinkedWorktrees, WorktreeReading};
use crate::github::pr::PrInfo;
use crate::jj;
use crate::jj::worktree::WorkspacePlan;
use crate::paths;
use crate::paths::FilePath;
use crate::state::refresh;
use crate::state::refresh::ListedRepo;
use crate::state::types::{NewWorktreeDialog, PanelFocus, Repository, Worktree};
use crate::text;
use crate::ui;
use crate::ui::new_worktree::FormContents;
use crate::ui::FrameContents;
use crate::vcs;
use crate::vcs::{FoundWorktree, LocatedSource, RemovePlan, VcsBackend, WorktreeSource};

verus! {

// ---------------------------------------------------------------------------
// Discovery
// ---------------------------------------------------------------------------

/// What git found is listed first, in git's order, with its path and role.
pub proof fn git_worktrees_are_listed_first(
    config: &RepoConfig,
    git: Vec<FoundWorktree>,
    jj: Option<Result<Vec<LocatedSource>, String>>,
    sources: Vec<WorktreeSource>,
    i: int,
)
    requires
        call_ensures(vcs::list_worktree_paths, (config, Ok(git), jj), Ok(sources)),
        0 <= i < git.len(),
    ensures
        i < sources.len(),
        sources[i].path@ == git[i].path@,
        sources[i].is_main == git[i].is_main,
        sources[i].repo_path@ == config.path@,
{
    let listed = vcs::git_listing(config@.path, Ok(git));
    let found = vcs::jj_listing(jj);
    vcs::either_backend_is_enough(config@.path, Ok(git), jj);
    vcs::merging_keeps_git_entries(listed, found);
    let all = vcs::merged(listed, found);
    assert(vcs::sources_view(sources@) == vcs::unlocated(all));
    assert(vcs::sources_view(sources@).len() == sources@.len());
    assert(vcs::unlocated(all).len() == all.len());
    assert(vcs::sources_view(sources@)[i] == sources@[i]@);
    assert(vcs::unlocated(all)[i] == all[i].source);
    assert(all[i].source.path == listed[i].source.path);
    assert(listed[i].source.path == git[i].path@);
}

/// A workspace whose directory git does not list, and no other workspace has, is
/// listed exactly as jj listed it.
pub proof fn other_workspaces_are_listed_as_they_are(
    config: &RepoConfig,
    git: Result<Vec<FoundWorktree>, String>,
    jj: Vec<LocatedSource>,
    sources: Vec<WorktreeSource>,
    j: int,
)
    requires
        call_ensures(vcs::list_worktree_paths, (config, git, Some(Ok(jj))), Ok(sources)),
        0 <= j < jj.len(),
        forall|k: int|
            0 <= k < jj.len() && k != j ==> !vcs::same_directory((#[trigger] jj[k])@, jj[j]@),
        forall|k: int|
            0 <= k < vcs::git_listing(config@.path, git).len() ==> !vcs::same_directory(
                #[trigger] vcs::git_listing(config@.path, git)[k],
                jj[j]@,
            ),
    ensures
        exists|i: int|
            0 <= i < sources.len() && {
                let s = #[trigger] sources[i];
                &&& s.path@ == jj[j].source.path@
                &&& s.is_main == jj[j].source.is_main
                &&& text::opt_view(s.name) == text::opt_view(jj[j].source.name)
                &&& s.backend == jj[j].source.backend
                &&& s.repo_path@ == jj[j].source.repo_path@
                &&& text::opt_view(s.commit_id) == text::opt_view(jj[j].source.commit_id)
            },
{
    let listed = vcs::git_listing(config@.path, git);
    let found = vcs::jj_listing(Some(Ok(jj)));
    vcs::either_backend_is_enough(config@.path, git, Some(Ok(jj)));
    assert forall|k: int| 0 <= k < found.len() && k != j implies !vcs::same_directory(
        #[trigger] found[k],
        found[j],
    ) by {
        assert(found[k] == jj[k]@);
    }
    assert(found[j] == jj[j]@);
    vcs::unclaimed_workspaces_are_reported_unchanged(listed, found, j);
    let all = vcs::merged(listed, found);
    let i = choose|i: int| 0 <= i < all.len() && all[i] == found[j];
    assert(vcs::unlocated(all)[i] == all[i].source);
    assert(vcs::sources_view(sources@)[i] == sources@[i]@);
    assert(sources[i]@ == jj[j]@.source);
}

/// Where git lists one main worktree and jj calls only that directory the main
/// one, exactly one entry is the main worktree, and it is that directory.
pub proof fn one_entry_is_the_main_worktree(
    config: &RepoConfig,
    git: Vec<FoundWorktree>,
    jj: Vec<LocatedSource>,
    sources: Vec<WorktreeSource>,
    main: int,
    i: int,
)
    requires
        call_ensures(vcs::list_worktree_paths, (config, Ok(git), Some(Ok(jj))), Ok(sources)),
        0 <= main < git.len(),
        forall|k: int| 0 <= k < git.len() ==> ((#[trigger] git[k]).is_main <==> k == main),
        forall|k: int|
            0 <= k < jj.len() && (#[trigger] jj[k]).source.is_main ==> vcs::same_directory(
                vcs::git_listing(config@.path, Ok(git))[main],
                jj[k]@,
            ),
        0 <= i < sources.len(),
    ensures
        sources[i].is_main <==> i == main,
        sources[main].path@ == git[main].path@,
{
    let listed = vcs::git_listing(config@.path, Ok(git));
    let found = vcs::jj_listing(Some(Ok(jj)));
    vcs::either_backend_is_enough(config@.path, Ok(git), Some(Ok(jj)));
    assert forall|k: int| 0 <= k < listed.len() implies ((
    #[trigger] listed[k]).source.is_main <==> k == main) by {
        assert(git[k].is_main <==> k == main);
    }
    assert forall|k: int| 0 <= k < found.len() && (#[trigger] found[k]).source.is_main implies
        vcs::same_directory(listed[main], found[k]) by {
        assert(found[k] == jj[k]@);
        assert(jj[k].source.is_main);
    }
    vcs::there_is_one_main_worktree(listed, found, main);
    let all = vcs::merged(listed, found);
    assert(vcs::sources_view(sources@) == vcs::unlocated(all));
    assert(vcs::sources_view(sources@).len() == sources@.len());
    assert(vcs::unlocated(all).len() == all.len());
    assert(vcs::unlocated(all)[i] == all[i].source);
    assert(vcs::sources_view(sources@)[i] == sources@[i]@);
    git_worktrees_are_listed_first(config, git, Some(Ok(jj)), sources, main);
}

/// Listing fails exactly where neither backend lists anything.
pub proof fn listing_fails_where_nothing_is_found(
    config: &RepoConfig,
    git: Result<Vec<FoundWorktree>, String>,
    jj: Option<Result<Vec<LocatedSource>, String>>,
    r: Result<Vec<WorktreeSource>, String>,
)
    requires
        call_ensures(vcs::list_worktree_paths, (config, git, jj), r),
    ensures
        r is Err <==> (git matches Ok(found) ==> found.len() == 0) && (jj matches Some(Ok(found))
            ==> found.len() == 0),
        r matches Ok(sources) ==> sources.len() > 0,
{
    let listed = vcs::git_listing(config@.path, git);
    let found = vcs::jj_listing(jj);
    vcs::either_backend_is_enough(config@.path, git, jj);
    vcs::merging_keeps_git_entries(listed, found);
    let all = vcs::merged(listed, found);
    if found.len() > 0 {
        vcs::first_match_facts(vcs::merged(listed, found.drop_last()), found.last());
        assert(all.len() > 0);
    } else {
        assert(all == listed);
    }
    if let Ok(sources) = r {
        assert(vcs::sources_view(sources@).len() == vcs::unlocated(all).len());
    }
}

/// git lists the configured path first, as the main worktree, and then each
/// linked worktree that it finds.
pub proof fn the_configured_path_is_git_s_main_worktree(
    config: &RepoConfig,
    linked: Vec<Option<FilePath>>,
    r: Result<Vec<(FilePath, bool)>, String>,
)
    requires
        call_ensures(
            git::repo::list_worktree_paths,
            (config, LinkedWorktrees::Listed(linked)),
            r,
        ),
    ensures
        r matches Ok(all) && all.len() > 0 && all[0].0@ == config.path@ && all[0].1
            && git::repo::paths_view(all@).skip(1) == git::repo::found_paths(linked@) && forall|
            i: int,
        |
            0 < i < all.len() ==> !(#[trigger] all[i]).1,
{
    let all = r->Ok_0;
    let shown = git::repo::paths_view(all@);
    git::repo::main_worktree_comes_first(config@.path, linked@);
    assert(shown == seq![(config@.path, true)] + git::repo::found_paths(linked@));
    assert(shown.len() == all@.len());
    assert(shown[0] == (all@[0].0@, all@[0].1));
    assert(shown.skip(1) =~= git::repo::found_paths(linked@));
    assert forall|i: int| 0 < i < all.len() implies !(#[trigger] all[i]).1 by {
        assert(shown[i] == (all@[i].0@, all@[i].1));
        assert(!shown[i].1);
    }
}

/// The workspaces of a repository are listed exactly where jj answered, and all
/// whose directories are present are listed.
pub proof fn present_workspaces_are_listed(
    config: &RepoConfig,
    listing: &Result<String, String>,
    present: &Vec<bool>,
    r: Result<Vec<WorktreeSource>, String>,
)
    requires
        call_ensures(jj::repo::list_workspace_paths, (config, listing, present), r),
    ensures
        r is Ok <==> listing is Ok,
        r matches Ok(sources) ==> forall|i: int|
            0 <= i < sources.len() ==> jj::repo::is_workspace_of(
                (#[trigger] sources[i])@,
                config.path@,
            ),
{
    if let Ok(out) = *listing {
        if let Ok(sources) = r {
            let entries = jj::repo::entries_of(text::lines(out@));
            jj::repo::listed_workspaces_are_jj(config@.path, entries, present@);
            let kept = jj::repo::kept_candidates(
                jj::repo::candidates_of(config@.path, entries),
                present@,
            );
            assert forall|i: int| 0 <= i < sources.len() implies jj::repo::is_workspace_of(
                (#[trigger] sources[i])@,
                config.path@,
            ) by {
                assert(vcs::sources_view(sources@)[i] == sources@[i]@);
                assert(kept[i] == sources@[i]@);
            }
        }
    }
}

/// A repository belongs to jj where it has a `.jj` directory, which is looked
/// for in the repository itself.
pub proof fn dot_jj_decides(path: &FilePath, dot_jj: FilePath, exists: bool, b: VcsBackend)
    requires
        call_ensures(vcs::dot_jj_path, (path,), dot_jj),
        call_ensures(vcs::detect_backend, (exists,), b),
    ensures
        paths::segments(dot_jj@) == paths::segments(path@).push(
            seq!['.' as u8, 'j' as u8, 'j' as u8],
        ),
        b == VcsBackend::Jj <==> exists,
{
    reveal_strlit(".jj");
    let name = ".jj"@;
    let rel = utf8::encode_utf8(name);
    utf8::is_ascii_chars_encode_utf8(name);
    assert(name[0] == '.' && name[1] == 'j' && name[2] == 'j');
    assert(rel =~= seq!['.' as u8, 'j' as u8, 'j' as u8]);
    paths::join_appends_segments(path@, rel);
    assert(!rel.contains(paths::SLASH));
    text::split_on_plain(rel, paths::SLASH);
    let one = seq![rel];
    assert(one.drop_last() =~= Seq::empty());
    assert(paths::keep_segments(one.drop_last()) =~= Seq::empty());
    assert(paths::keep_segments(one) =~= one);
    assert(paths::segments(path@) + one =~= paths::segments(path@).push(rel));
}

// ---------------------------------------------------------------------------
// Refreshing
// ---------------------------------------------------------------------------

/// All sources that were listed are loaded, one after the other exactly where
/// one of them belongs to jj; a failed listing is reported.
pub proof fn listed_sources_are_loaded(
    listing: Result<Vec<WorktreeSource>, String>,
    r: ListedRepo,
)
    requires
        call_ensures(refresh::listed, (listing,), r),
    ensures
        listing matches Ok(found) ==> (r matches ListedRepo::Load { sources, sequential }
            && sources@ == found@ && (sequential <==> exists|i: int|
            0 <= i < found.len() && (#[trigger] found[i]).backend == VcsBackend::Jj)),
        listing matches Err(e) ==> (r matches ListedRepo::Failed(event) && event@
            == AppEventView::RefreshError(e@)),
{
}

/// What was loaded of a repository is shown: all worktrees that could be loaded,
/// and jj as the backend for new ones where there is a `.jj` directory.
pub proof fn loaded_worktrees_are_shown(
    config: RepoConfig,
    dot_jj_exists: bool,
    results: Vec<Result<Worktree, String>>,
    r: AppEvent,
)
    requires
        call_ensures(refresh::loaded, (config, dot_jj_exists, results), r),
    ensures
        r@ matches AppEventView::RepoLoaded(repo) && repo.config == config@ && (repo.backend
            == VcsBackend::Jj <==> dot_jj_exists) && repo.worktrees.to_multiset()
            == refresh::loaded_worktrees(results@).to_multiset(),
{
    if let AppEventView::RepoLoaded(repo) = r@ {
        refresh::loaded_repositories_hold_their_worktrees(
            repo,
            config@,
            if dot_jj_exists {
                VcsBackend::Jj
            } else {
                VcsBackend::Git
            },
            results@,
        );
    }
}

/// The pull requests that were fetched go to the repository that they were
/// fetched for; none go to it where they could not be had.
pub proof fn fetched_pull_requests_go_to_their_repository(
    path: FilePath,
    prs: Result<Vec<PrInfo>, String>,
    r: AppEvent,
)
    requires
        call_ensures(refresh::fetched, (path, prs), r),
    ensures
        r@ matches AppEventView::PrsFetched { repo_path, prs: shown } && repo_path == path@ && (
        prs is Err ==> shown.len() == 0) && (prs matches Ok(found) ==> shown.len() == found.len()
            && forall|i: int|
            0 <= i < found.len() ==> #[trigger] shown[i] == found[i]@),
{
}

/// Every outcome of what the user asked for is told: where a worktree was
/// created or removed, which repository is tracked, or what went wrong.
pub proof fn outcomes_are_told(
    repo: FilePath,
    worktree: FilePath,
    e: String,
    b: VcsBackend,
    created: AppEvent,
    not_created: AppEvent,
    removed: AppEvent,
    not_removed: AppEvent,
    added: AppEvent,
    not_added: AppEvent,
)
    requires
        call_ensures(refresh::worktree_created, (repo, Ok(worktree)), created),
        call_ensures(refresh::worktree_created, (repo, Err(e)), not_created),
        call_ensures(refresh::worktree_removed, (repo, worktree, Ok(())), removed),
        call_ensures(refresh::worktree_removed, (repo, worktree, Err(e)), not_removed),
        call_ensures(refresh::repo_validated, (repo, Ok(b)), added),
        call_ensures(refresh::repo_validated, (repo, Err(e)), not_added),
    ensures
        created@ == (AppEventView::WorktreeCreated {
            repo_path: repo@,
            worktree_path: worktree@,
        }),
        not_created@ == AppEventView::WorktreeCreateError(e@),
        removed@ == (AppEventView::WorktreeDeleted {
            repo_path: repo@,
            worktree_path: worktree@,
        }),
        not_removed@ == AppEventView::WorktreeDeleteError(e@),
        added@ == AppEventView::RepoAdded(repo@),
        not_added@ == AppEventView::RepoAddError(e@),
{
}

// ---------------------------------------------------------------------------
// Reading, creating and removing
// ---------------------------------------------------------------------------

/// A git worktree that can be opened and whose files can be read has a status,
/// with its path and role; any other has none.
pub proof fn readable_worktrees_have_a_status(
    path: FilePath,
    is_main: bool,
    reading: Option<WorktreeReading>,
    r: Result<Worktree, String>,
)
    requires
        call_ensures(git::repo::load_worktree_info, (path, is_main, reading), r),
    ensures
        r is Ok <==> (reading matches Some(read) && read.statuses is Some),
        r matches Ok(w) ==> w.path@ == path@ && w.is_main == is_main && w.backend
            == VcsBackend::Git && w.pr is None && w.branch@ == git::repo::shown_branch(
            reading->0.head,
        ) && w.status == git::repo::status_of(reading->0.statuses->0@, reading->0.ahead_behind),
{
}

/// A worktree is removed by the backend that owns it, from its repository and at
/// its place; jj forgets it by its name.
pub proof fn removal_goes_to_the_owner(
    backend: VcsBackend,
    repo: &FilePath,
    worktree: &FilePath,
    name: &str,
    plan: RemovePlan,
)
    requires
        call_ensures(vcs::remove_workspace, (backend, repo, worktree, name), plan),
    ensures
        plan is Git <==> backend == VcsBackend::Git,
        plan matches RemovePlan::Git { repo_path, workspace_path } ==> repo_path@ == repo@
            && workspace_path@ == worktree@,
        plan matches RemovePlan::Jj { forget_args, workspace_path, name: n } ==> workspace_path@
            == worktree@ && n@ == name@ && text::strings_view(forget_args@).last() == name@
            && text::strings_view(forget_args@)[1] == bytes::text_of(repo@),
{
    jj::worktree::workspaces_are_forgotten_by_name(repo@, name@);
    if let RemovePlan::Git { repo_path, workspace_path } = plan {
        assert(plan@ == vcs::RemovePlanView::Git {
            repo_path: repo_path@,
            workspace_path: workspace_path@,
        });
    }
}

/// A workspace's directory is deleted only after jj has forgotten the workspace,
/// and no other directory is.
pub proof fn only_forgotten_directories_are_deleted(
    worktree: &FilePath,
    name: &str,
    forgotten: &Result<String, String>,
    r: Result<FilePath, String>,
)
    requires
        call_ensures(jj::worktree::remove_workspace, (worktree, name, forgotten), r),
    ensures
        r is Ok <==> forgotten is Ok,
        r matches Ok(dir) ==> dir@ == worktree@,
{
}

/// A workspace was created where it was planned, exactly when its directory
/// could be made and jj agreed; else jj's reason is told.
pub proof fn workspaces_are_created_where_planned(
    plan: WorkspacePlan,
    made: bool,
    answer: &Result<String, String>,
    r: Result<FilePath, String>,
)
    requires
        call_ensures(jj::worktree::created, (plan, made, answer), r),
    ensures
        r is Ok <==> made && answer is Ok,
        r matches Ok(path) ==> path@ == plan.workspace_path@,
        made ==> (*answer matches Err(e) ==> r->Err_0@ == e@),
{
}

// ---------------------------------------------------------------------------
// The cache
// ---------------------------------------------------------------------------

/// What is saved and then loaded for the path of a repository is that
/// repository's worktrees and backend.
pub proof fn saving_and_loading_gives_back(
    repos: &Vec<Repository>,
    saved: Cache,
    config: RepoConfig,
    shown: Repository,
    i: int,
)
    requires
        call_ensures(cache::snapshot, (repos,), saved),
        call_ensures(cache::hydrate_repo, (config, &saved), shown),
        0 <= i < repos.len(),
        paths::same_path(repos[i].config.path@, config.path@),
        forall|j: int|
            0 <= j < i ==> !paths::same_path((#[trigger] repos[j]).config.path@, config.path@),
    ensures
        shown@.worktrees == repos[i]@.worktrees,
        shown.backend == repos[i].backend,
        shown@.config == config@,
{
    let all = crate::state::types::repos_view(repos@);
    assert forall|j: int| 0 <= j < i implies !paths::same_path(
        (#[trigger] all[j]).config.path,
        config@.path,
    ) by {
        assert(all[j] == repos[j]@);
        assert(!paths::same_path(repos[j].config.path@, config.path@));
    }
    assert(all[i] == repos[i]@);
    cache::saved_repositories_come_back(config@, all, i);
    assert(shown@.backend == repos[i]@.backend);
}

// ---------------------------------------------------------------------------
// Frames
// ---------------------------------------------------------------------------

/// A frame shows the session of the selected worktree and no other, every dialog
/// that is open, which panel has the focus, and whether a refresh is running.
pub proof fn frames_show_the_state(app: &App, f: FrameContents)
    requires
        call_ensures(ui::frame_contents, (app,), f),
    ensures
        f.session matches Some(path) ==> (app@.state.selected() matches Some(w) && w.path == path@)
            && app@.pty_manager.has(path@),
        f.session is None ==> (app@.state.selected() matches Some(w) ==> !app@.pty_manager.has(
            w.path,
        )),
        f.terminal_focused <==> app.state.focus == PanelFocus::Terminal,
        f.new_worktree <==> app.state.new_worktree_dialog is Some,
        f.add_repo <==> app.state.add_repo_dialog is Some,
        f.delete_worktree <==> app.state.delete_worktree_dialog is Some,
        f.status.activity is Some <==> app.state.is_refreshing,
{
}

/// The form shows the name that was typed with the cursor in it, says for which
/// backend it is, and shows the reason of a refusal.
pub proof fn the_form_shows_the_name(dialog: &NewWorktreeDialog, k: int, c: FormContents)
    requires
        call_ensures(ui::new_worktree::form_contents, (dialog,), c),
        0 <= k <= dialog.branch_name@.len(),
        dialog.cursor_pos == crate::edit::byte_len(dialog.branch_name@.take(k)),
    ensures
        c.is_busy <==> dialog.is_creating,
        text::opt_view(c.error) == text::opt_view(dialog.error),
        !dialog.is_creating ==> c.input@ == dialog.branch_name@.insert(k, '\u{2502}'),
{
    let s = dialog.branch_name@;
    crate::edit::boundary_after_chars(s, k);
    crate::edit::encode_add(s.take(k), s.skip(k));
    assert(s.take(k) + s.skip(k) =~= s);
    assert(s.take(k).push('\u{2502}') + s.skip(k) =~= s.insert(k, '\u{2502}'));
}

/// Sources are loaded one after the other exactly where one belongs to jj.
pub proof fn jj_is_asked_one_question_at_a_time(sources: &[WorktreeSource], r: bool)
    requires
        call_ensures(vcs::needs_sequential_loading, (sources,), r),
    ensures
        !r <==> forall|i: int|
            0 <= i < sources@.len() ==> (#[trigger] sources@[i]).backend == VcsBackend::Git,
{
}

/// Two paths are one directory where their canonical forms are the same, or
/// where the paths are and one has no canonical form; and that does not depend
/// on their order.
pub proof fn directories_are_matched_either_way(
    a: &FilePath,
    ca: &Option<FilePath>,
    b: &FilePath,
    cb: &Option<FilePath>,
    r: bool,
    back: bool,
)
    requires
        call_ensures(vcs::paths_match, (a, ca, b, cb), r),
        call_ensures(vcs::paths_match, (b, cb, a, ca), back),
    ensures
        r == back,
        *ca matches Some(x) ==> (*cb matches Some(y) ==> r == paths::same_path(x@, y@)),
        ca is None || cb is None ==> r == paths::same_path(a@, b@),
{
    paths::same_path_equivalence(a@, b@, a@);
    if ca is Some && cb is Some {
        paths::same_path_equivalence(ca->0@, cb->0@, ca->0@);
    }
}

/// A worktree is created by the backend of the repository, which a `.jj`
/// directory decides; a refused name is told to the user.
pub proof fn the_repository_s_backend_creates(
    dot_jj_exists: bool,
    repo: &FilePath,
    name: &str,
    r: Result<vcs::CreatePlan, AppEvent>,
)
    requires
        call_ensures(refresh::create_worktree, (dot_jj_exists, repo, name), r),
    ensures
        !dot_jj_exists ==> (r matches Ok(vcs::CreatePlan::Git { repo_path, name: n }) && repo_path@
            == repo@ && n@ == name@),
        dot_jj_exists ==> (r is Ok <==> jj::repo::is_safe_name(name@) && paths::parent_of(
            repo@,
        ) is Some),
        dot_jj_exists && r is Ok ==> (r matches Ok(vcs::CreatePlan::Jj(plan))
            && plan.workspace_path@ == paths::join_text_of(paths::parent_of(repo@)->0, name@)),
        r matches Err(event) ==> event@ is WorktreeCreateError,
{
    vcs::worktrees_are_created_by_the_backend(repo@, name@);
    if let Ok(plan) = r {
        match plan {
            vcs::CreatePlan::Git { repo_path, name: n } => {
                assert(plan@ == vcs::CreatePlanView::Git { repo_path: repo_path@, name: n@ });
            },
            vcs::CreatePlan::Jj(p) => {
                assert(plan@ == vcs::CreatePlanView::Jj(p@));
            },
        }
    }
}

/// A run of jj gives what it wrote to its output, read as text, where it
/// succeeded; where it failed, an error that ends with what it wrote to its
/// error output.
pub proof fn runs_of_jj_give_what_was_written(
    args: &Vec<String>,
    success: bool,
    stdout: &[u8],
    stderr: &[u8],
    r: Result<String, String>,
)
    requires
        call_ensures(jj::cli::finish, (args, success, stdout, stderr), r),
    ensures
        r is Ok <==> success,
        r matches Ok(out) ==> out@ == bytes::text_of(stdout@),
        r matches Err(e) ==> text::trim(bytes::text_of(stderr@)).is_suffix_of(e@),
{
    jj::cli::runs_give_their_output_or_their_error(
        text::strings_view(args@),
        bytes::text_of(stdout@),
        bytes::text_of(stderr@),
    );
}

} // verus!
