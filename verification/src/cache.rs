//! What is kept on disk between runs, so that worktrees are visible before the
//! first refresh completes.
use vstd::prelude::*;
use vstd::utf8;

use crate::config;
use crate::config::{RepoConfig, RepoConfigView};
use crate::paths;
use crate::paths::{looked_up, FilePath, UserDir, UserDirView};
use crate::state::types;
use crate::state::types::{
    PrState, PullRequest, PullRequestView, Repository, RepositoryView, Worktree, WorktreeStatus,
    WorktreeView,
};
use crate::text;
use crate::text::str_eq;
use crate::vcs::VcsBackend;

verus! {

/// The stored data.
#[derive(Debug)]
pub struct Cache {
    pub repos: Vec<CachedRepo>,
}

/// A stored repository.
#[derive(Debug)]
pub struct CachedRepo {
    pub path: FilePath,
    /// "git" or "jj"; missing in files that were written before jj was
    /// supported.
    pub backend: Option<String>,
    pub worktrees: Vec<CachedWorktree>,
}

/// A stored worktree.
#[derive(Debug)]
pub struct CachedWorktree {
    pub name: String,
    pub path: FilePath,
    pub branch: String,
    pub is_main: bool,
    pub uncommitted_changes: u32,
    pub ahead: u32,
    pub behind: u32,
    pub is_dirty: bool,
    pub pr: Option<CachedPr>,
    /// "git" or "jj"; missing in files that were written before jj was
    /// supported.
    pub backend: Option<String>,
}

/// A stored pull request.
#[derive(Debug)]
pub struct CachedPr {
    pub number: u64,
    pub title: String,
    /// "open", "closed" or "merged".
    pub state: String,
    pub is_draft: bool,
    pub url: String,
}

// ---------------------------------------------------------------------------
// Views
// ---------------------------------------------------------------------------

#[verifier::ext_equal]
pub struct CachedRepoView {
    pub path: Seq<u8>,
    pub backend: Option<Seq<char>>,
    pub worktrees: Seq<CachedWorktreeView>,
}

#[verifier::ext_equal]
pub struct CachedWorktreeView {
    pub name: Seq<char>,
    pub path: Seq<u8>,
    pub branch: Seq<char>,
    pub is_main: bool,
    pub uncommitted_changes: u32,
    pub ahead: u32,
    pub behind: u32,
    pub is_dirty: bool,
    pub pr: Option<CachedPrView>,
    pub backend: Option<Seq<char>>,
}

#[verifier::ext_equal]
pub struct CachedPrView {
    pub number: u64,
    pub title: Seq<char>,
    pub state: Seq<char>,
    pub is_draft: bool,
    pub url: Seq<char>,
}

impl View for CachedPr {
    type V = CachedPrView;

    open spec fn view(&self) -> CachedPrView {
        CachedPrView {
            number: self.number,
            title: self.title@,
            state: self.state@,
            is_draft: self.is_draft,
            url: self.url@,
        }
    }
}

impl View for CachedWorktree {
    type V = CachedWorktreeView;

    open spec fn view(&self) -> CachedWorktreeView {
        CachedWorktreeView {
            name: self.name@,
            path: self.path@,
            branch: self.branch@,
            is_main: self.is_main,
            uncommitted_changes: self.uncommitted_changes,
            ahead: self.ahead,
            behind: self.behind,
            is_dirty: self.is_dirty,
            pr: match self.pr {
                Some(p) => Some(p@),
                None => None,
            },
            backend: text::opt_view(self.backend),
        }
    }
}

impl View for CachedRepo {
    type V = CachedRepoView;

    open spec fn view(&self) -> CachedRepoView {
        CachedRepoView {
            path: self.path@,
            backend: text::opt_view(self.backend),
            worktrees: self.worktrees@.map_values(|w: CachedWorktree| w@),
        }
    }
}

impl View for Cache {
    type V = Seq<CachedRepoView>;

    open spec fn view(&self) -> Seq<CachedRepoView> {
        self.repos@.map_values(|r: CachedRepo| r@)
    }
}

impl Default for Cache {
    /// A cache that holds nothing.
    fn default() -> (r: Self)
        ensures
            r@ == Seq::<CachedRepoView>::empty(),
    {
        let r = Cache { repos: Vec::new() };
        assert(r@ =~= Seq::empty());
        r
    }
}

// ---------------------------------------------------------------------------
// Where
// ---------------------------------------------------------------------------

/// The user's cache directory: `dirs::cache_dir`, which reads the environment
/// and the user database; nothing is claimed of its answer. Its path is handed
/// on as the bytes that it consists of.
#[verifier::external_body]
fn cache_dir() -> (r: UserDir) {
    match dirs::cache_dir() {
        Some(p) => UserDir::At(FilePath { bytes: p.into_os_string().into_encoded_bytes() }),
        None => UserDir::Missing,
    }
}

/// Whether the directory is what the system answers when it is asked for the
/// user's cache directory.
pub closed spec fn is_cache_dir(dir: UserDirView) -> bool {
    exists|d: UserDir| #[trigger] call_ensures(cache_dir, (), d) && d@ == dir
}

/// The cache file below the given cache directory, or below `/tmp` where there
/// is none.
pub open spec fn cache_file(dir: UserDirView) -> Seq<u8> {
    match dir {
        UserDirView::At(d) => cache_file_below(d),
        UserDirView::Missing => cache_file_below(utf8::encode_utf8("/tmp"@)),
    }
}

/// The cache file below the directory.
pub open spec fn cache_file_below(dir: Seq<u8>) -> Seq<u8> {
    paths::join_text_of(paths::join_text_of(dir, "gitopiary"@), "worktrees.json"@)
}

/// The cache file.
pub fn cache_path() -> (r: FilePath)
    ensures
        exists|dir: UserDirView| #[trigger] is_cache_dir(dir) && r@ == cache_file(dir),
{
    let dir = looked_up(cache_dir);
    assert(call_ensures(cache_dir, (), dir));
    assert(is_cache_dir(dir@));
    cache_path_in(&dir)
}

/// The cache file below the given cache directory, or below `/tmp` where there
/// is none.
pub fn cache_path_in(dir: &UserDir) -> (r: FilePath)
    ensures
        r@ == cache_file(dir@),
{
    let base: FilePath = match dir {
        UserDir::At(d) => d.clone(),
        UserDir::Missing => FilePath::from_text("/tmp"),
    };
    paths::join_text(&paths::join_text(&base, "gitopiary"), "worktrees.json")
}

// ---------------------------------------------------------------------------
// From the cache
// ---------------------------------------------------------------------------

/// The backend of a stored name: jj for "jj", else git.
pub open spec fn backend_from(name: Option<Seq<char>>) -> VcsBackend {
    if name == Some("jj"@) {
        VcsBackend::Jj
    } else {
        VcsBackend::Git
    }
}

/// The backend of a stored name.
fn backend_named(name: &Option<String>) -> (r: VcsBackend)
    ensures
        r == backend_from(text::opt_view(*name)),
{
    match name {
        Some(n) => if str_eq(n.as_str(), "jj") {
            VcsBackend::Jj
        } else {
            VcsBackend::Git
        },
        None => VcsBackend::Git,
    }
}

/// The state of a stored name: open for anything but "merged" and "closed".
pub open spec fn pr_state_from(name: Seq<char>) -> PrState {
    if name == "merged"@ {
        PrState::Merged
    } else if name == "closed"@ {
        PrState::Closed
    } else {
        PrState::Open
    }
}

/// The pull request that was stored.
pub open spec fn restored_pr(p: CachedPrView) -> PullRequestView {
    PullRequestView {
        number: p.number,
        title: p.title,
        state: pr_state_from(p.state),
        is_draft: p.is_draft,
        url: p.url,
    }
}

/// The pull request that was stored.
pub fn cached_to_pr(p: &CachedPr) -> (r: PullRequest)
    ensures
        r@ == restored_pr(p@),
{
    PullRequest {
        number: p.number,
        title: p.title.clone(),
        state: if str_eq(p.state.as_str(), "merged") {
            PrState::Merged
        } else if str_eq(p.state.as_str(), "closed") {
            PrState::Closed
        } else {
            PrState::Open
        },
        is_draft: p.is_draft,
        url: p.url.clone(),
    }
}

/// The worktree that was stored.
pub open spec fn restored_worktree(w: CachedWorktreeView) -> WorktreeView {
    WorktreeView {
        name: w.name,
        path: w.path,
        branch: w.branch,
        is_main: w.is_main,
        status: WorktreeStatus {
            uncommitted_changes: w.uncommitted_changes,
            ahead: w.ahead,
            behind: w.behind,
            is_dirty: w.is_dirty,
        },
        pr: match w.pr {
            Some(p) => Some(restored_pr(p)),
            None => None,
        },
        backend: backend_from(w.backend),
    }
}

/// The worktree that was stored.
pub fn cached_to_worktree(w: &CachedWorktree) -> (r: Worktree)
    ensures
        r@ == restored_worktree(w@),
{
    Worktree {
        name: w.name.clone(),
        path: w.path.clone(),
        branch: w.branch.clone(),
        is_main: w.is_main,
        status: WorktreeStatus {
            uncommitted_changes: w.uncommitted_changes,
            ahead: w.ahead,
            behind: w.behind,
            is_dirty: w.is_dirty,
        },
        pr: match &w.pr {
            Some(p) => Some(cached_to_pr(p)),
            None => None,
        },
        backend: backend_named(&w.backend),
    }
}

/// The first stored repository with the path, or the number of stored
/// repositories.
pub open spec fn stored_index(cache: Seq<CachedRepoView>, path: Seq<u8>) -> int
    decreases cache.len(),
{
    if cache.len() == 0 || paths::same_path(cache[0].path, path) {
        0
    } else {
        1 + stored_index(cache.drop_first(), path)
    }
}

/// The repository of a configuration, with what the cache holds of it.
pub open spec fn hydrated(config: RepoConfigView, cache: Seq<CachedRepoView>) -> RepositoryView {
    let i = stored_index(cache, config.path);
    let empty = types::empty_repository(config);
    if i < cache.len() {
        RepositoryView {
            worktrees: cache[i].worktrees.map_values(|w: CachedWorktreeView| restored_worktree(w)),
            backend: match cache[i].backend {
                Some(_) => backend_from(cache[i].backend),
                None => empty.backend,
            },
            ..empty
        }
    } else {
        empty
    }
}

/// The repository of a configuration with the worktrees that the cache holds
/// for its path; an empty repository where it holds none.
pub fn hydrate_repo(config: RepoConfig, cache: &Cache) -> (r: Repository)
    ensures
        r@ == hydrated(config@, cache@),
{
    let mut repo = Repository::new(config.clone());
    let ghost all = cache@;
    let mut i: usize = 0;
    assert(all.skip(0) =~= all);
    while i < cache.repos.len() && !paths::paths_equal(
        &cache.repos[i].path,
        &config.path,
    )
        invariant
            i <= cache.repos.len(),
            all == cache@,
            stored_index(all, config@.path) == i + stored_index(all.skip(i as int), config@.path),
        decreases cache.repos.len() - i,
    {
        assert(all.skip(i as int)[0] == cache.repos@[i as int]@);
        assert(all.skip(i as int).drop_first() =~= all.skip(i + 1));
        i += 1;
    }
    if i < cache.repos.len() {
        let cached: &CachedRepo = &cache.repos[i];
        assert(all.skip(i as int)[0] == cached@);
        repo.worktrees = restore_worktrees(&cached.worktrees);
        if let Some(_) = &cached.backend {
            repo.backend = backend_named(&cached.backend);
        }
        assert(repo@.worktrees =~= cached@.worktrees.map_values(
            |w: CachedWorktreeView| restored_worktree(w),
        ));
    }
    repo
}

/// The worktrees that were stored.
fn restore_worktrees(stored: &Vec<CachedWorktree>) -> (r: Vec<Worktree>)
    ensures
        r.len() == stored.len(),
        forall|i: int|
            0 <= i < stored.len() ==> (#[trigger] r@[i])@ == restored_worktree(stored@[i]@),
{
    let mut r: Vec<Worktree> = Vec::new();
    let mut i: usize = 0;
    while i < stored.len()
        invariant
            i <= stored.len(),
            r.len() == i,
            forall|j: int|
                0 <= j < i ==> (#[trigger] r@[j])@ == restored_worktree(stored@[j]@),
        decreases stored.len() - i,
    {
        r.push(cached_to_worktree(&stored[i]));
        i += 1;
    }
    r
}

/// The repositories at startup.
pub open spec fn hydrated_all(
    configs: Seq<RepoConfigView>,
    cache: Seq<CachedRepoView>,
) -> Seq<RepositoryView> {
    configs.map_values(|c: RepoConfigView| hydrated(c, cache))
}

/// The repositories at startup: one for each configuration, in order, with what
/// the cache holds of it.
pub fn hydrate_repos(configs: &Vec<RepoConfig>, cache: &Cache) -> (r: Vec<Repository>)
    ensures
        types::repos_view(r@) == hydrated_all(config::configs_view(configs@), cache@),
{
    let mut r: Vec<Repository> = Vec::new();
    let mut i: usize = 0;
    while i < configs.len()
        invariant
            i <= configs.len(),
            r.len() == i,
            forall|j: int| 0 <= j < i ==> (#[trigger] r@[j])@ == hydrated(configs@[j]@, cache@),
        decreases configs.len() - i,
    {
        r.push(hydrate_repo(configs[i].clone(), cache));
        i += 1;
    }
    assert(types::repos_view(r@) =~= hydrated_all(config::configs_view(configs@), cache@));
    r
}

// ---------------------------------------------------------------------------
// To the cache
// ---------------------------------------------------------------------------

/// The stored name of a backend.
pub open spec fn backend_name(backend: VcsBackend) -> Seq<char> {
    match backend {
        VcsBackend::Git => "git"@,
        VcsBackend::Jj => "jj"@,
    }
}

/// The stored name of a backend.
fn name_of_backend(backend: VcsBackend) -> (r: String)
    ensures
        r@ == backend_name(backend),
{
    match backend {
        VcsBackend::Git => "git".to_owned(),
        VcsBackend::Jj => "jj".to_owned(),
    }
}

/// The stored name of a pull request's state.
pub open spec fn pr_state_name(state: PrState) -> Seq<char> {
    match state {
        PrState::Open => "open"@,
        PrState::Closed => "closed"@,
        PrState::Merged => "merged"@,
    }
}

/// The pull request as it is stored.
pub open spec fn stored_pr(p: PullRequestView) -> CachedPrView {
    CachedPrView {
        number: p.number,
        title: p.title,
        state: pr_state_name(p.state),
        is_draft: p.is_draft,
        url: p.url,
    }
}

/// The pull request as it is stored.
pub fn pr_to_cached(p: &PullRequest) -> (r: CachedPr)
    ensures
        r@ == stored_pr(p@),
{
    CachedPr {
        number: p.number,
        title: p.title.clone(),
        state: match p.state {
            PrState::Open => "open".to_owned(),
            PrState::Closed => "closed".to_owned(),
            PrState::Merged => "merged".to_owned(),
        },
        is_draft: p.is_draft,
        url: p.url.clone(),
    }
}

/// The worktree as it is stored.
pub open spec fn stored_worktree(w: WorktreeView) -> CachedWorktreeView {
    CachedWorktreeView {
        name: w.name,
        path: w.path,
        branch: w.branch,
        is_main: w.is_main,
        uncommitted_changes: w.status.uncommitted_changes,
        ahead: w.status.ahead,
        behind: w.status.behind,
        is_dirty: w.status.is_dirty,
        pr: match w.pr {
            Some(p) => Some(stored_pr(p)),
            None => None,
        },
        backend: Some(backend_name(w.backend)),
    }
}

/// The worktree as it is stored.
pub fn worktree_to_cached(w: &Worktree) -> (r: CachedWorktree)
    ensures
        r@ == stored_worktree(w@),
{
    CachedWorktree {
        name: w.name.clone(),
        path: w.path.clone(),
        branch: w.branch.clone(),
        is_main: w.is_main,
        uncommitted_changes: w.status.uncommitted_changes,
        ahead: w.status.ahead,
        behind: w.status.behind,
        is_dirty: w.status.is_dirty,
        pr: match &w.pr {
            Some(p) => Some(pr_to_cached(p)),
            None => None,
        },
        backend: Some(name_of_backend(w.backend)),
    }
}

/// The repository as it is stored.
pub open spec fn stored_repo(r: RepositoryView) -> CachedRepoView {
    CachedRepoView {
        path: r.config.path,
        backend: Some(backend_name(r.backend)),
        worktrees: r.worktrees.map_values(|w: WorktreeView| stored_worktree(w)),
    }
}

/// The repository as it is stored.
pub fn repo_to_cached(repo: &Repository) -> (r: CachedRepo)
    ensures
        r@ == stored_repo(repo@),
{
    let mut worktrees: Vec<CachedWorktree> = Vec::new();
    let mut i: usize = 0;
    while i < repo.worktrees.len()
        invariant
            i <= repo.worktrees.len(),
            worktrees.len() == i,
            forall|j: int|
                0 <= j < i ==> (#[trigger] worktrees@[j])@ == stored_worktree(
                    repo.worktrees@[j]@,
                ),
        decreases repo.worktrees.len() - i,
    {
        worktrees.push(worktree_to_cached(&repo.worktrees[i]));
        i += 1;
    }
    let r = CachedRepo {
        path: repo.config.path.clone(),
        backend: Some(name_of_backend(repo.backend)),
        worktrees,
    };
    assert(r@.worktrees =~= stored_repo(repo@).worktrees);
    r
}

/// The repositories as they are stored.
pub open spec fn stored_repos(repos: Seq<RepositoryView>) -> Seq<CachedRepoView> {
    repos.map_values(|r: RepositoryView| stored_repo(r))
}

/// The cache that holds the repositories.
pub fn snapshot(repos: &Vec<Repository>) -> (r: Cache)
    ensures
        r@ == stored_repos(types::repos_view(repos@)),
{
    let mut cached: Vec<CachedRepo> = Vec::new();
    let mut i: usize = 0;
    while i < repos.len()
        invariant
            i <= repos.len(),
            cached.len() == i,
            forall|j: int| 0 <= j < i ==> (#[trigger] cached@[j])@ == stored_repo(repos@[j]@),
        decreases repos.len() - i,
    {
        cached.push(repo_to_cached(&repos[i]));
        i += 1;
    }
    let r = Cache { repos: cached };
    assert(r@ =~= stored_repos(types::repos_view(repos@)));
    r
}

// ---------------------------------------------------------------------------
// Laws
// ---------------------------------------------------------------------------

/// A stored pull request is restored as it was.
pub proof fn stored_pr_is_restored(p: PullRequestView)
    ensures
        restored_pr(stored_pr(p)) == p,
{
    reveal_strlit("open");
    reveal_strlit("closed");
    reveal_strlit("merged");
    assert("open"@.len() != "closed"@.len());
    assert("closed"@[0] != "merged"@[0]);
}

/// A stored worktree is restored as it was.
pub proof fn stored_worktree_is_restored(w: WorktreeView)
    ensures
        restored_worktree(stored_worktree(w)) == w,
{
    reveal_strlit("git");
    reveal_strlit("jj");
    assert("git"@.len() != "jj"@.len());
    if let Some(p) = w.pr {
        stored_pr_is_restored(p);
    }
}

/// What was saved is what the next start shows: for a configured path, the
/// worktrees and the backend of the first saved repository with that path come
/// back as they were.
pub proof fn saved_repositories_come_back(
    config: RepoConfigView,
    repos: Seq<RepositoryView>,
    i: int,
)
    requires
        0 <= i < repos.len(),
        paths::same_path(repos[i].config.path, config.path),
        forall|j: int|
            0 <= j < i ==> !paths::same_path((#[trigger] repos[j]).config.path, config.path),
    ensures
        hydrated(config, stored_repos(repos)) == (RepositoryView {
            worktrees: repos[i].worktrees,
            backend: repos[i].backend,
            ..types::empty_repository(config)
        }),
{
    let cache = stored_repos(repos);
    stored_index_is_first(cache, config.path, i);
    reveal_strlit("git");
    reveal_strlit("jj");
    assert("git"@.len() != "jj"@.len());
    assert forall|k: int| 0 <= k < repos[i].worktrees.len() implies restored_worktree(
        stored_worktree(#[trigger] repos[i].worktrees[k]),
    ) == repos[i].worktrees[k] by {
        stored_worktree_is_restored(repos[i].worktrees[k]);
    }
    assert(hydrated(config, cache).worktrees =~= repos[i].worktrees);
}

/// `stored_index` is the first entry with the path.
proof fn stored_index_is_first(cache: Seq<CachedRepoView>, path: Seq<u8>, i: int)
    requires
        0 <= i < cache.len(),
        paths::same_path(cache[i].path, path),
        forall|j: int| 0 <= j < i ==> !paths::same_path((#[trigger] cache[j]).path, path),
    ensures
        stored_index(cache, path) == i,
    decreases i,
{
    if i > 0 {
        assert(!paths::same_path(cache[0].path, path));
        let rest = cache.drop_first();
        assert forall|j: int| 0 <= j < i - 1 implies !paths::same_path(
            (#[trigger] rest[j]).path,
            path,
        ) by {
            assert(rest[j] == cache[j + 1]);
        }
        stored_index_is_first(rest, path, i - 1);
    }
}

/// A repository that was not saved starts out empty.
pub proof fn unsaved_repositories_start_empty(config: RepoConfigView, cache: Seq<CachedRepoView>)
    requires
        forall|j: int|
            0 <= j < cache.len() ==> !paths::same_path((#[trigger] cache[j]).path, config.path),
    ensures
        hydrated(config, cache) == types::empty_repository(config),
{
    stored_index_misses(cache, config.path);
}

/// `stored_index` is past the end where no entry has the path.
proof fn stored_index_misses(cache: Seq<CachedRepoView>, path: Seq<u8>)
    requires
        forall|j: int|
            0 <= j < cache.len() ==> !paths::same_path((#[trigger] cache[j]).path, path),
    ensures
        stored_index(cache, path) == cache.len(),
    decreases cache.len(),
{
    if cache.len() > 0 {
        assert(!paths::same_path(cache[0].path, path));
        let rest = cache.drop_first();
        assert forall|j: int| 0 <= j < rest.len() implies !paths::same_path(
            (#[trigger] rest[j]).path,
            path,
        ) by {
            assert(rest[j] == cache[j + 1]);
        }
        stored_index_misses(rest, path);
    }
}

/// Files that were written before jj was supported still load: without a
/// backend, everything is git's.
pub proof fn old_files_load_as_git(config: RepoConfigView, cache: Seq<CachedRepoView>)
    requires
        forall|i: int|
            0 <= i < cache.len() ==> (#[trigger] cache[i]).backend is None && forall|j: int|
                0 <= j < cache[i].worktrees.len() ==> (#[trigger] cache[i].worktrees[j]).backend is
                    None,
    ensures
        hydrated(config, cache).backend == VcsBackend::Git,
        forall|j: int|
            0 <= j < hydrated(config, cache).worktrees.len() ==> (#[trigger] hydrated(
                config,
                cache,
            ).worktrees[j]).backend == VcsBackend::Git,
{
    stored_index_nonnegative(cache, config.path);
    let i = stored_index(cache, config.path);
    if i < cache.len() {
        assert(cache[i].backend is None);
        let shown = hydrated(config, cache).worktrees;
        assert forall|j: int| 0 <= j < shown.len() implies (#[trigger] shown[j]).backend
            == VcsBackend::Git by {
            assert(cache[i].worktrees[j].backend is None);
        }
    }
}

/// `stored_index` is no less than 0.
proof fn stored_index_nonnegative(cache: Seq<CachedRepoView>, path: Seq<u8>)
    ensures
        0 <= stored_index(cache, path) <= cache.len(),
    decreases cache.len(),
{
    if cache.len() > 0 {
        stored_index_nonnegative(cache.drop_first(), path);
    }
}

/// The cache is one file of a fixed name in the application's own directory
/// below the user's cache directory, or below `/tmp`.
pub proof fn the_cache_file_lies_below_the_cache_directory(dir: Seq<u8>)
    ensures
        paths::segments(cache_file(UserDirView::At(dir))) == paths::segments(dir).push(
            utf8::encode_utf8("gitopiary"@),
        ).push(utf8::encode_utf8("worktrees.json"@)),
        cache_file(UserDirView::Missing) == cache_file(
            UserDirView::At(seq!['/' as u8, 't' as u8, 'm' as u8, 'p' as u8]),
        ),
{
    reveal_strlit("gitopiary");
    reveal_strlit("worktrees.json");
    reveal_strlit("/tmp");
    let first = "gitopiary"@;
    let second = "worktrees.json"@;
    plain_name_is_a_segment(first);
    plain_name_is_a_segment(second);
    paths::join_appends_segments(dir, utf8::encode_utf8(first));
    paths::join_appends_segments(
        paths::join_text_of(dir, first),
        utf8::encode_utf8(second),
    );
    assert(paths::segments(cache_file(UserDirView::At(dir))) =~= paths::segments(dir).push(
        utf8::encode_utf8(first),
    ).push(utf8::encode_utf8(second)));
    let tmp = "/tmp"@;
    utf8::is_ascii_chars_encode_utf8(tmp);
    assert(tmp[0] == '/' && tmp[1] == 't' && tmp[2] == 'm' && tmp[3] == 'p');
    assert(utf8::encode_utf8(tmp) =~= seq!['/' as u8, 't' as u8, 'm' as u8, 'p' as u8]);
}

/// An ASCII name of some length without a slash is one segment.
proof fn plain_name_is_a_segment(name: Seq<char>)
    requires
        name.len() > 1,
        utf8::is_ascii_chars(name),
        forall|i: int| 0 <= i < name.len() ==> #[trigger] name[i] != '/',
    ensures
        !paths::is_rooted(utf8::encode_utf8(name)),
        paths::segments(utf8::encode_utf8(name)) == seq![utf8::encode_utf8(name)],
{
    let b = utf8::encode_utf8(name);
    utf8::is_ascii_chars_encode_utf8(name);
    assert forall|i: int| 0 <= i < b.len() implies #[trigger] b[i] != paths::SLASH by {
        assert('\0' <= name[i] <= '\u{7f}');
        assert(name[i] != '/');
    }
    assert(!b.contains(paths::SLASH));
    text::split_on_plain(b, paths::SLASH);
    let fields = seq![b];
    assert(fields.drop_last() =~= Seq::empty());
    assert(paths::keep_segments(fields.drop_last()) =~= Seq::empty());
    assert(paths::keep_segments(fields) =~= fields);
}

/// A name in lower case.
pub open spec fn lower(name: Seq<char>) -> Seq<char> {
    name.map_values(
        |c: char|
            if 'A' <= c <= 'Z' {
                ((c as u32 + 32) as u32) as char
            } else {
                c
            },
    )
}

/// Pull requests are stored under the state that GitHub reports, in lower case,
/// and backends under their names.
pub proof fn states_and_backends_have_fixed_names(p: PullRequestView)
    ensures
        p.state == PrState::Open ==> stored_pr(p).state == lower(seq!['O', 'P', 'E', 'N']),
        p.state == PrState::Closed ==> stored_pr(p).state == lower(
            seq!['C', 'L', 'O', 'S', 'E', 'D'],
        ),
        p.state == PrState::Merged ==> stored_pr(p).state == lower(
            seq!['M', 'E', 'R', 'G', 'E', 'D'],
        ),
        backend_name(VcsBackend::Git) == seq!['g', 'i', 't'],
        backend_name(VcsBackend::Jj) == seq!['j', 'j'],
{
    reveal_strlit("open");
    reveal_strlit("closed");
    reveal_strlit("merged");
    reveal_strlit("git");
    reveal_strlit("jj");
    assert("open"@ =~= lower(seq!['O', 'P', 'E', 'N']));
    assert("closed"@ =~= lower(seq!['C', 'L', 'O', 'S', 'E', 'D']));
    assert("merged"@ =~= lower(seq!['M', 'E', 'R', 'G', 'E', 'D']));
    assert("git"@ =~= seq!['g', 'i', 't']);
    assert("jj"@ =~= seq!['j', 'j']);
}

/// At the start there is one repository for each configured one, in order, and
/// each is shown under its name, expanded.
pub proof fn every_configured_repository_is_shown(
    configs: Seq<RepoConfigView>,
    cache: Seq<CachedRepoView>,
)
    ensures
        hydrated_all(configs, cache).len() == configs.len(),
        forall|i: int|
            0 <= i < configs.len() ==> {
                let r = #[trigger] hydrated_all(configs, cache)[i];
                &&& r == hydrated(configs[i], cache)
                &&& r.config == configs[i]
                &&& r.is_expanded
                &&& r.display_name == types::display_name_of(configs[i])
            },
{
}

/// What is stored of a worktree is all that is shown of it.
pub proof fn stored_worktrees_hold_what_is_shown(w: WorktreeView)
    ensures
        ({
            let c = stored_worktree(w);
            &&& c.name == w.name && c.path == w.path && c.branch == w.branch
            &&& c.is_main == w.is_main
            &&& c.uncommitted_changes == w.status.uncommitted_changes
            &&& c.ahead == w.status.ahead
            &&& c.behind == w.status.behind
            &&& c.is_dirty == w.status.is_dirty
            &&& c.pr is Some == w.pr is Some
            &&& w.pr matches Some(p) ==> c.pr->0.number == p.number && c.pr->0.title == p.title
                && c.pr->0.url == p.url && c.pr->0.is_draft == p.is_draft
            &&& c.backend == Some(backend_name(w.backend))
        }),
{
}

/// What a file holds is shown as it is, whoever wrote it: the words for a merged
/// and a closed pull request and for jj are known, all others count as open and
/// as git.
pub proof fn files_are_shown_as_they_are(w: CachedWorktreeView)
    ensures
        ({
            let r = restored_worktree(w);
            &&& r.name == w.name && r.path == w.path && r.branch == w.branch
            &&& r.is_main == w.is_main
            &&& r.status.uncommitted_changes == w.uncommitted_changes
            &&& r.status.ahead == w.ahead
            &&& r.status.behind == w.behind
            &&& r.status.is_dirty == w.is_dirty
            &&& r.backend == VcsBackend::Jj <==> w.backend == Some(seq!['j', 'j'])
            &&& r.pr is Some <==> w.pr is Some
            &&& w.pr matches Some(p) ==> {
                let q = r.pr->0;
                &&& q.number == p.number && q.title == p.title && q.url == p.url
                &&& q.is_draft == p.is_draft
                &&& q.state == PrState::Merged <==> p.state == seq!['m', 'e', 'r', 'g', 'e', 'd']
                &&& q.state == PrState::Closed <==> p.state == seq!['c', 'l', 'o', 's', 'e', 'd']
            }
        }),
{
    reveal_strlit("jj");
    reveal_strlit("merged");
    reveal_strlit("closed");
    assert("jj"@ =~= seq!['j', 'j']);
    assert("merged"@ =~= seq!['m', 'e', 'r', 'g', 'e', 'd']);
    assert("closed"@ =~= seq!['c', 'l', 'o', 's', 'e', 'd']);
    assert("closed"@[0] != "merged"@[0]);
}

/// A configured repository shows the worktrees of the first stored one with its
/// path, in order, and its backend.
pub proof fn the_first_stored_repository_is_shown(
    config: RepoConfigView,
    cache: Seq<CachedRepoView>,
    i: int,
)
    requires
        0 <= i < cache.len(),
        paths::same_path(cache[i].path, config.path),
        forall|j: int| 0 <= j < i ==> !paths::same_path((#[trigger] cache[j]).path, config.path),
    ensures
        ({
            let r = hydrated(config, cache);
            &&& r.config == config
            &&& r.worktrees.len() == cache[i].worktrees.len()
            &&& forall|k: int|
                0 <= k < r.worktrees.len() ==> #[trigger] r.worktrees[k] == restored_worktree(
                    cache[i].worktrees[k],
                )
            &&& r.backend == VcsBackend::Jj <==> cache[i].backend == Some(seq!['j', 'j'])
        }),
{
    stored_index_is_first(cache, config.path, i);
    reveal_strlit("jj");
    assert("jj"@ =~= seq!['j', 'j']);
}

} // verus!
