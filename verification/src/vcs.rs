//! Version control backends, and what both of them find in a repository.
use vstd::prelude::*;

use crate::bytes;
use crate::config::RepoConfig;
use crate::jj::repo;
use crate::jj::status;
use crate::jj::status::{load_workspace_info, Answer, WorkspaceLoad, WorkspaceLoadView};
use crate::jj::worktree;
use crate::jj::worktree::{WorkspacePlan, WorkspacePlanView};
use crate::paths;
use crate::paths::FilePath;
use crate::text;
use crate::text::concat2;

verus! {

/// The version control system that owns a worktree.
#[derive(Debug, Clone, Copy, PartialEq, Eq, Structural)]
pub enum VcsBackend {
    Git,
    Jj,
}

/// One worktree or workspace directory found under a repository. The backend
/// belongs to the entry: a colocated repository can have git worktrees that jj
/// does not know and jj workspaces that git does not know.
#[derive(Debug)]
pub struct WorktreeSource {
    pub path: FilePath,
    pub is_main: bool,
    /// The workspace name, for jj.
    pub name: Option<String>,
    pub backend: VcsBackend,
    /// The root of the repository.
    pub repo_path: FilePath,
    /// The workspace's current commit, for jj.
    pub commit_id: Option<String>,
}

/// A worktree source with its texts as characters and its paths as bytes.
#[verifier::ext_equal]
pub struct WorktreeSourceView {
    pub path: Seq<u8>,
    pub is_main: bool,
    pub name: Option<Seq<char>>,
    pub backend: VcsBackend,
    pub repo_path: Seq<u8>,
    pub commit_id: Option<Seq<char>>,
}

impl View for WorktreeSource {
    type V = WorktreeSourceView;

    open spec fn view(&self) -> WorktreeSourceView {
        WorktreeSourceView {
            path: self.path@,
            is_main: self.is_main,
            name: text::opt_view(self.name),
            backend: self.backend,
            repo_path: self.repo_path@,
            commit_id: text::opt_view(self.commit_id),
        }
    }
}

/// The worktree sources of a list.
pub open spec fn sources_view(s: Seq<WorktreeSource>) -> Seq<WorktreeSourceView> {
    s.map_values(|w: WorktreeSource| w@)
}

// ---------------------------------------------------------------------------
// Which backend
// ---------------------------------------------------------------------------

/// A repository is backed by jj if it has a `.jj` directory, colocated with git
/// or not.
pub fn detect_backend(dot_jj_exists: bool) -> (r: VcsBackend)
    ensures
        r == (if dot_jj_exists {
            VcsBackend::Jj
        } else {
            VcsBackend::Git
        }),
{
    if dot_jj_exists {
        VcsBackend::Jj
    } else {
        VcsBackend::Git
    }
}

/// Where the `.jj` directory of a repository or workspace would be.
pub fn dot_jj_path(path: &FilePath) -> (r: FilePath)
    ensures
        r@ == paths::join_text_of(path@, ".jj"@),
{
    paths::join_text(path, ".jj")
}

/// The backend of a path that the user wants to track, or why it is refused.
pub open spec fn validated(
    path: Seq<u8>,
    exists: bool,
    dot_jj_exists: bool,
    probe: Result<Seq<char>, Seq<char>>,
) -> Result<VcsBackend, Seq<char>> {
    if !exists {
        Err("Path does not exist: "@ + bytes::text_of(path))
    } else if dot_jj_exists {
        match probe {
            Ok(_) => Ok(VcsBackend::Jj),
            Err(_) => Err(paths::debug_form(path) + " is not a usable jj repo"@),
        }
    } else {
        match probe {
            Ok(_) => Ok(VcsBackend::Git),
            Err(e) => Err("Not a git or jj repository: "@ + e),
        }
    }
}

/// The backend of a path that the user wants to track, or why it is refused.
/// `probe` is what jj answered to the question for its root where `.jj`
/// exists, else what opening the path with git came to.
pub fn validate_repo_path(path: &FilePath, exists: bool, dot_jj_exists: bool, probe: &Answer) -> (r:
    Result<VcsBackend, String>)
    ensures
        match r {
            Ok(b) => Ok::<VcsBackend, Seq<char>>(b),
            Err(e) => Err(e@),
        } == validated(path@, exists, dot_jj_exists, text::outcome_view(*probe)),
{
    if !exists {
        let shown = path.to_text();
        return Err(concat2("Path does not exist: ", shown.as_str()));
    }
    if dot_jj_exists {
        return match repo::validate_jj_repo(path, probe) {
            Ok(_) => Ok(VcsBackend::Jj),
            Err(e) => Err(e),
        };
    }
    match probe {
        Ok(_) => Ok(VcsBackend::Git),
        Err(e) => Err(concat2("Not a git or jj repository: ", e.as_str())),
    }
}

// ---------------------------------------------------------------------------
// Discovery
// ---------------------------------------------------------------------------

/// A directory that git knows as a worktree. `canonical` is its canonical path,
/// where it has one.
#[derive(Debug)]
pub struct FoundWorktree {
    pub path: FilePath,
    pub canonical: Option<FilePath>,
    pub is_main: bool,
}

/// A source and the canonical form of its path, where it has one.
#[derive(Debug)]
pub struct LocatedSource {
    pub source: WorktreeSource,
    pub canonical: Option<FilePath>,
}

#[verifier::ext_equal]
pub struct LocatedSourceView {
    pub source: WorktreeSourceView,
    pub canonical: Option<Seq<u8>>,
}

impl View for LocatedSource {
    type V = LocatedSourceView;

    open spec fn view(&self) -> LocatedSourceView {
        LocatedSourceView { source: self.source@, canonical: paths::opt_view(self.canonical) }
    }
}

/// The located sources of a list.
pub open spec fn located_view(s: Seq<LocatedSource>) -> Seq<LocatedSourceView> {
    s.map_values(|l: LocatedSource| l@)
}

/// The sources of a list without their canonical paths.
pub open spec fn unlocated(s: Seq<LocatedSourceView>) -> Seq<WorktreeSourceView> {
    s.map_values(|l: LocatedSourceView| l.source)
}

/// Whether two sources are the same directory: by their canonical paths where
/// both have one, else by the paths as given.
pub open spec fn same_directory(a: LocatedSourceView, b: LocatedSourceView) -> bool {
    match (a.canonical, b.canonical) {
        (Some(x), Some(y)) => paths::same_path(x, y),
        _ => paths::same_path(a.source.path, b.source.path),
    }
}

/// Whether two paths are the same directory: by their canonical forms where
/// both have one, else as given.
pub fn paths_match(
    a: &FilePath,
    a_canonical: &Option<FilePath>,
    b: &FilePath,
    b_canonical: &Option<FilePath>,
) -> (r: bool)
    ensures
        r == match (*a_canonical, *b_canonical) {
            (Some(x), Some(y)) => paths::same_path(x@, y@),
            _ => paths::same_path(a@, b@),
        },
{
    match (a_canonical, b_canonical) {
        (Some(x), Some(y)) => paths::paths_equal(x, y),
        _ => paths::paths_equal(a, b),
    }
}

/// The source of a git worktree.
pub open spec fn git_source(repo: Seq<u8>, found: FoundWorktree) -> LocatedSourceView {
    LocatedSourceView {
        source: WorktreeSourceView {
            path: found.path@,
            is_main: found.is_main,
            name: None,
            backend: VcsBackend::Git,
            repo_path: repo,
            commit_id: None,
        },
        canonical: paths::opt_view(found.canonical),
    }
}

/// The sources of the git worktrees.
pub open spec fn git_sources(repo: Seq<u8>, found: Seq<FoundWorktree>) -> Seq<
    LocatedSourceView,
> {
    found.map_values(|f: FoundWorktree| git_source(repo, f))
}

/// The first source that is the same directory as `s`, or the number of
/// sources.
pub open spec fn first_match(sources: Seq<LocatedSourceView>, s: LocatedSourceView) -> int
    decreases sources.len(),
{
    if sources.len() == 0 || same_directory(sources[0], s) {
        0
    } else {
        1 + first_match(sources.drop_first(), s)
    }
}

/// A source that jj also knows: it keeps its path and is owned by jj.
pub open spec fn claimed_by_jj(
    existing: LocatedSourceView,
    workspace: LocatedSourceView,
) -> LocatedSourceView {
    LocatedSourceView {
        source: WorktreeSourceView {
            backend: VcsBackend::Jj,
            name: workspace.source.name,
            commit_id: workspace.source.commit_id,
            ..existing.source
        },
        ..existing
    }
}

/// The sources with one more workspace: an entry that is the same directory is
/// claimed, else the workspace is added.
pub open spec fn merged_one(
    sources: Seq<LocatedSourceView>,
    workspace: LocatedSourceView,
) -> Seq<LocatedSourceView> {
    let i = first_match(sources, workspace);
    if i < sources.len() {
        sources.update(i, claimed_by_jj(sources[i], workspace))
    } else {
        sources.push(workspace)
    }
}

/// The sources with the workspaces merged in, in order.
pub open spec fn merged(
    sources: Seq<LocatedSourceView>,
    workspaces: Seq<LocatedSourceView>,
) -> Seq<LocatedSourceView>
    decreases workspaces.len(),
{
    if workspaces.len() == 0 {
        sources
    } else {
        merged_one(merged(sources, workspaces.drop_last()), workspaces.last())
    }
}

/// What git listed; a failed listing counts as nothing.
pub open spec fn git_listing(
    repo: Seq<u8>,
    git: Result<Vec<FoundWorktree>, String>,
) -> Seq<LocatedSourceView> {
    match git {
        Ok(found) => git_sources(repo, found@),
        Err(_) => Seq::empty(),
    }
}

/// What jj listed; a repository without jj and a failed listing count as
/// nothing.
pub open spec fn jj_listing(jj: Option<Result<Vec<LocatedSource>, String>>) -> Seq<
    LocatedSourceView,
> {
    match jj {
        Some(Ok(found)) => located_view(found@),
        _ => Seq::empty(),
    }
}

/// What to tell the user about a path in which neither backend finds anything,
/// given its `{:?}` form.
pub fn no_repository_message(debug_form: &str) -> (r: String)
    ensures
        r@ == "Not a git or jj repository: "@ + debug_form@,
{
    concat2("Not a git or jj repository: ", debug_form)
}

/// The worktrees and workspaces of a repository: the union of what git found
/// and, where the repository has a `.jj` directory, what jj found. A directory
/// that both know is reported once, owned by jj.
pub fn list_worktree_paths(
    config: &RepoConfig,
    git: Result<Vec<FoundWorktree>, String>,
    jj: Option<Result<Vec<LocatedSource>, String>>,
) -> (r: Result<Vec<WorktreeSource>, String>)
    ensures
        ({
            let all = merged(git_listing(config@.path, git), jj_listing(jj));
            match r {
                Ok(sources) => all.len() > 0 && sources_view(sources@) == unlocated(all),
                Err(e) => all.len() == 0 && e@ == "Not a git or jj repository: "@
                    + paths::debug_form(config@.path),
            }
        }),
{
    let ghost listed = git_listing(config@.path, git);
    let ghost spaces = jj_listing(jj);
    let mut sources: Vec<LocatedSource> = match git {
        Ok(found) => git_entries(config, found),
        Err(_) => {
            let none: Vec<LocatedSource> = Vec::new();
            assert(located_view(none@) =~= Seq::empty());
            none
        },
    };
    if let Some(Ok(found)) = jj {
        let ghost all = located_view(found@);
        let ghost mut done: int = 0;
        assert(all.take(0) =~= Seq::empty());
        for workspace in it: found
            invariant
                located_view(it.seq()) == all,
                done == it.index(),
                0 <= done <= all.len(),
                located_view(sources@) == merged(listed, all.take(done)),
        {
            assert(workspace@ == all[done]);
            assert(all.take(done + 1).drop_last() =~= all.take(done));
            merge_workspace(&mut sources, workspace);
            proof {
                done = done + 1;
            }
        }
        assert(all.take(all.len() as int) =~= all);
    } else {
        assert(spaces =~= Seq::empty());
    }
    if sources.len() == 0 {
        let shown = paths::debug_path(&config.path);
        return Err(no_repository_message(shown.as_str()));
    }
    Ok(drop_locations(sources))
}

/// The sources of the git worktrees.
fn git_entries(config: &RepoConfig, found: Vec<FoundWorktree>) -> (r: Vec<LocatedSource>)
    ensures
        located_view(r@) == git_sources(config@.path, found@),
{
    let ghost all = git_sources(config@.path, found@);
    let ghost mut done: int = 0;
    let mut r: Vec<LocatedSource> = Vec::new();
    assert(located_view(r@) =~= all.take(0));
    for f in it: found
        invariant
            git_sources(config@.path, it.seq()) == all,
            done == it.index(),
            0 <= done <= all.len(),
            located_view(r@) == all.take(done),
    {
        let ghost before = located_view(r@);
        let ghost this = git_source(config@.path, f);
        assert(this == all[done]);
        r.push(
            LocatedSource {
                source: WorktreeSource {
                    path: f.path,
                    is_main: f.is_main,
                    name: None,
                    backend: VcsBackend::Git,
                    repo_path: config.path.clone(),
                    commit_id: None,
                },
                canonical: f.canonical,
            },
        );
        assert(located_view(r@) =~= before.push(this));
        assert(all.take(done + 1) =~= all.take(done).push(all[done]));
        proof {
            done = done + 1;
        }
    }
    assert(all.take(all.len() as int) =~= all);
    r
}

/// Merges one workspace into the sources.
fn merge_workspace(sources: &mut Vec<LocatedSource>, workspace: LocatedSource)
    ensures
        located_view(final(sources)@) == merged_one(located_view(old(sources)@), workspace@),
{
    let ghost all = located_view(sources@);
    let mut i: usize = 0;
    assert(all.skip(0) =~= all);
    while i < sources.len() && !paths_match(
        &sources[i].source.path,
        &sources[i].canonical,
        &workspace.source.path,
        &workspace.canonical,
    )
        invariant
            i <= sources.len(),
            *sources == *old(sources),
            all == located_view(sources@),
            first_match(all, workspace@) == i + first_match(all.skip(i as int), workspace@),
        decreases sources.len() - i,
    {
        assert(all.skip(i as int)[0] == sources@[i as int]@);
        assert(all.skip(i as int).drop_first() =~= all.skip(i + 1));
        i += 1;
    }
    let ghost w = workspace@;
    if i < sources.len() {
        assert(all.skip(i as int)[0] == sources@[i as int]@);
        let ghost claimed = claimed_by_jj(all[i as int], w);
        sources[i].source.backend = VcsBackend::Jj;
        sources[i].source.name = workspace.source.name;
        sources[i].source.commit_id = workspace.source.commit_id;
        assert(sources@[i as int]@ == claimed);
        assert(located_view(sources@) =~= all.update(i as int, claimed));
    } else {
        sources.push(workspace);
        assert(located_view(sources@) =~= all.push(w));
    }
}

/// The sources without their canonical paths.
fn drop_locations(located: Vec<LocatedSource>) -> (r: Vec<WorktreeSource>)
    ensures
        sources_view(r@) == unlocated(located_view(located@)),
{
    let ghost all = unlocated(located_view(located@));
    let ghost mut done: int = 0;
    let mut r: Vec<WorktreeSource> = Vec::new();
    assert(sources_view(r@) =~= all.take(0));
    for l in it: located
        invariant
            unlocated(located_view(it.seq())) == all,
            done == it.index(),
            0 <= done <= all.len(),
            sources_view(r@) == all.take(done),
    {
        let ghost before = sources_view(r@);
        let ghost this = l@.source;
        assert(this == all[done]);
        r.push(l.source);
        assert(sources_view(r@) =~= before.push(this));
        assert(all.take(done + 1) =~= all.take(done).push(all[done]));
        proof {
            done = done + 1;
        }
    }
    assert(all.take(all.len() as int) =~= all);
    r
}

// ---------------------------------------------------------------------------
// Laws of discovery
// ---------------------------------------------------------------------------

/// `first_match` points at a match, or past the end when there is none.
pub proof fn first_match_facts(sources: Seq<LocatedSourceView>, s: LocatedSourceView)
    ensures
        0 <= first_match(sources, s) <= sources.len(),
        first_match(sources, s) < sources.len() ==> same_directory(
            sources[first_match(sources, s)],
            s,
        ),
        forall|i: int|
            0 <= i < first_match(sources, s) ==> !same_directory(#[trigger] sources[i], s),
    decreases sources.len(),
{
    if sources.len() > 0 && !same_directory(sources[0], s) {
        first_match_facts(sources.drop_first(), s);
        assert forall|i: int| 0 <= i < first_match(sources, s) implies !same_directory(
            #[trigger] sources[i],
            s,
        ) by {
            if i > 0 {
                assert(sources[i] == sources.drop_first()[i - 1]);
            }
        }
    }
}

/// Merging never drops or moves what git found: every git entry keeps its
/// position, path and role, and an entry that no workspace shares a directory
/// with is left as it was.
pub proof fn merging_keeps_git_entries(
    sources: Seq<LocatedSourceView>,
    workspaces: Seq<LocatedSourceView>,
)
    ensures
        merged(sources, workspaces).len() >= sources.len(),
        forall|i: int|
            0 <= i < sources.len() ==> {
                let m = #[trigger] merged(sources, workspaces)[i];
                &&& m.source.path == sources[i].source.path
                &&& m.source.is_main == sources[i].source.is_main
                &&& m.source.repo_path == sources[i].source.repo_path
                &&& m.canonical == sources[i].canonical
                &&& (forall|j: int|
                    0 <= j < workspaces.len() ==> !same_directory(
                        sources[i],
                        #[trigger] workspaces[j],
                    )) ==> m == sources[i]
            },
    decreases workspaces.len(),
{
    if workspaces.len() > 0 {
        let front = workspaces.drop_last();
        let before = merged(sources, front);
        merging_keeps_git_entries(sources, front);
        first_match_facts(before, workspaces.last());
        assert forall|i: int| 0 <= i < sources.len() implies {
            let m = #[trigger] merged(sources, workspaces)[i];
            &&& m.source.path == sources[i].source.path
            &&& m.source.is_main == sources[i].source.is_main
            &&& m.source.repo_path == sources[i].source.repo_path
            &&& m.canonical == sources[i].canonical
            &&& (forall|j: int|
                0 <= j < workspaces.len() ==> !same_directory(
                    sources[i],
                    #[trigger] workspaces[j],
                )) ==> m == sources[i]
        } by {
            assert(before[i].source.path == sources[i].source.path);
            if forall|j: int|
                0 <= j < workspaces.len() ==> !same_directory(
                    sources[i],
                    #[trigger] workspaces[j],
                ) {
                assert forall|j: int| 0 <= j < front.len() implies !same_directory(
                    sources[i],
                    #[trigger] front[j],
                ) by {
                    assert(front[j] == workspaces[j]);
                }
                assert(before[i] == sources[i]);
                assert(!same_directory(sources[i], workspaces[workspaces.len() - 1]));
            }
        }
    }
}

/// Whether some source is the directory of the workspace and owned by jj.
pub open spec fn represents(sources: Seq<LocatedSourceView>, workspace: LocatedSourceView) -> bool {
    exists|i: int|
        0 <= i < sources.len() && same_directory(#[trigger] sources[i], workspace)
            && sources[i].source.backend == VcsBackend::Jj
}

/// Every workspace that jj found is reported, tagged jj, whether git knows its
/// directory or not.
pub proof fn every_workspace_is_reported(
    sources: Seq<LocatedSourceView>,
    workspaces: Seq<LocatedSourceView>,
)
    requires
        forall|j: int|
            0 <= j < workspaces.len() ==> (#[trigger] workspaces[j]).source.backend
                == VcsBackend::Jj,
    ensures
        forall|j: int|
            0 <= j < workspaces.len() ==> represents(
                merged(sources, workspaces),
                #[trigger] workspaces[j],
            ),
    decreases workspaces.len(),
{
    if workspaces.len() > 0 {
        let front = workspaces.drop_last();
        let before = merged(sources, front);
        let all = merged(sources, workspaces);
        every_workspace_is_reported(sources, front);
        first_match_facts(before, workspaces.last());
        let k = first_match(before, workspaces.last());
        assert forall|j: int| 0 <= j < workspaces.len() implies represents(
            all,
            #[trigger] workspaces[j],
        ) by {
            if j < front.len() {
                assert(represents(before, front[j]));
                let i = choose|i: int|
                    0 <= i < before.len() && same_directory(#[trigger] before[i], front[j])
                        && before[i].source.backend == VcsBackend::Jj;
                assert(same_directory(all[i], workspaces[j]));
                assert(all[i].source.backend == VcsBackend::Jj);
            } else {
                let w = workspaces.last();
                paths::same_path_equivalence(w.source.path, w.source.path, w.source.path);
                if w.canonical is Some {
                    paths::same_path_equivalence(w.canonical->0, w.canonical->0, w.canonical->0);
                }
                assert(same_directory(all[k], w));
                assert(all[k].source.backend == VcsBackend::Jj);
            }
        }
    }
}

/// Whether no directory occurs twice.
pub open spec fn distinct_directories(sources: Seq<LocatedSourceView>) -> bool {
    forall|i: int, j: int|
        0 <= i < j < sources.len() ==> !same_directory(#[trigger] sources[i], #[trigger] sources[j])
}

/// A directory that both backends know is reported once: merging adds no
/// directory that is there already.
pub proof fn every_directory_is_reported_once(
    sources: Seq<LocatedSourceView>,
    workspaces: Seq<LocatedSourceView>,
)
    requires
        distinct_directories(sources),
    ensures
        distinct_directories(merged(sources, workspaces)),
    decreases workspaces.len(),
{
    if workspaces.len() > 0 {
        let before = merged(sources, workspaces.drop_last());
        let all = merged(sources, workspaces);
        every_directory_is_reported_once(sources, workspaces.drop_last());
        first_match_facts(before, workspaces.last());
        assert forall|i: int, j: int| 0 <= i < j < all.len() implies !same_directory(
            #[trigger] all[i],
            #[trigger] all[j],
        ) by {
            if j < before.len() {
                assert(!same_directory(before[i], before[j]));
            } else {
                assert(!same_directory(before[i], workspaces.last()));
            }
        }
    }
}

/// Whether every source that jj owns has a workspace name and a commit.
pub open spec fn jj_sources_named(sources: Seq<LocatedSourceView>) -> bool {
    forall|i: int|
        0 <= i < sources.len() && (#[trigger] sources[i]).source.backend == VcsBackend::Jj
            ==> sources[i].source.name is Some && sources[i].source.commit_id is Some
}

/// Every source that jj owns after merging has a workspace name and a commit,
/// where the workspaces do: an entry that git found gets them when it is
/// claimed.
pub proof fn claimed_entries_are_named(
    sources: Seq<LocatedSourceView>,
    workspaces: Seq<LocatedSourceView>,
)
    requires
        jj_sources_named(sources),
        jj_sources_named(workspaces),
        forall|j: int|
            0 <= j < workspaces.len() ==> (#[trigger] workspaces[j]).source.backend
                == VcsBackend::Jj,
    ensures
        jj_sources_named(merged(sources, workspaces)),
    decreases workspaces.len(),
{
    if workspaces.len() > 0 {
        let front = workspaces.drop_last();
        let before = merged(sources, front);
        let all = merged(sources, workspaces);
        assert forall|j: int| 0 <= j < front.len() implies (#[trigger] front[j]).source.backend
            == VcsBackend::Jj && front[j].source.name is Some && front[j].source.commit_id is Some by {
            assert(front[j] == workspaces[j]);
        }
        claimed_entries_are_named(sources, front);
        first_match_facts(before, workspaces.last());
        let last = workspaces[workspaces.len() - 1];
        assert(last.source.backend == VcsBackend::Jj);
        assert forall|i: int|
            0 <= i < all.len() && (#[trigger] all[i]).source.backend == VcsBackend::Jj implies
            all[i].source.name is Some && all[i].source.commit_id is Some by {
            if i < before.len() && all[i] != claimed_by_jj(before[i], last) {
                assert(all[i] == before[i]);
            }
        }
    }
}

/// What git finds is all owned by git, so it has no workspace names to lack.
pub proof fn git_sources_are_git(repo: Seq<u8>, found: Seq<FoundWorktree>)
    ensures
        jj_sources_named(git_sources(repo, found)),
        forall|i: int|
            0 <= i < found.len() ==> (#[trigger] git_sources(repo, found)[i]).source.backend
                == VcsBackend::Git,
{
}

/// Every entry that is loaded with jj has the name and the commit that this
/// needs: whatever git found and whichever of the workspaces that jj listed are
/// present.
pub proof fn jj_entries_can_be_loaded(
    root: Seq<u8>,
    found: Seq<FoundWorktree>,
    entries: Seq<(Seq<char>, Seq<char>)>,
    present: Seq<bool>,
    workspaces: Seq<LocatedSourceView>,
)
    requires
        unlocated(workspaces) == repo::kept_candidates(
            repo::candidates_of(root, entries),
            present,
        ),
    ensures
        jj_sources_named(merged(git_sources(root, found), workspaces)),
{
    let listed = repo::kept_candidates(repo::candidates_of(root, entries), present);
    repo::listed_workspaces_are_jj(root, entries, present);
    assert forall|j: int| 0 <= j < workspaces.len() implies (
    #[trigger] workspaces[j]).source.backend == VcsBackend::Jj && workspaces[j].source.name is Some
        && workspaces[j].source.commit_id is Some by {
        assert(unlocated(workspaces)[j] == workspaces[j].source);
        assert(repo::is_workspace_of(listed[j], root));
    }
    git_sources_are_git(root, found);
    claimed_entries_are_named(git_sources(root, found), workspaces);
}

/// Being the same directory does not depend on the order.
proof fn same_directory_symmetric(a: LocatedSourceView, b: LocatedSourceView)
    ensures
        same_directory(a, b) == same_directory(b, a),
        same_directory(a, a),
{
    paths::same_path_equivalence(a.source.path, b.source.path, a.source.path);
    if a.canonical is Some {
        paths::same_path_equivalence(a.canonical->0, a.canonical->0, a.canonical->0);
        if b.canonical is Some {
            paths::same_path_equivalence(a.canonical->0, b.canonical->0, a.canonical->0);
        }
    }
}

/// Whether the entry is the one that was found, but for what a workspace that
/// claims it may change: the name, the commit and the backend.
pub open spec fn is_entry_of(entry: LocatedSourceView, found: LocatedSourceView) -> bool {
    &&& entry.canonical == found.canonical
    &&& entry.source.path == found.source.path
    &&& entry.source.is_main == found.source.is_main
    &&& entry.source.repo_path == found.source.repo_path
}

/// Whether entry `i` of the merged list is what git or jj found: the git entry
/// at the same place, or some workspace whose directory git did not find.
pub open spec fn is_found(
    sources: Seq<LocatedSourceView>,
    workspaces: Seq<LocatedSourceView>,
    i: int,
) -> bool {
    let entry = merged(sources, workspaces)[i];
    if i < sources.len() {
        is_entry_of(entry, sources[i])
    } else {
        exists|j: int|
            0 <= j < workspaces.len() && is_entry_of(entry, #[trigger] workspaces[j]) && forall|
                k: int,
            |
                0 <= k < sources.len() ==> !same_directory(#[trigger] sources[k], workspaces[j])
    }
}

/// Nothing is made up: every entry is one that git or jj found, with the path,
/// the role and the repository that it was found with; what git found stands
/// first, in its order, and of jj's only directories that git does not know
/// are added.
pub proof fn every_entry_was_found(
    sources: Seq<LocatedSourceView>,
    workspaces: Seq<LocatedSourceView>,
)
    ensures
        forall|i: int|
            0 <= i < merged(sources, workspaces).len() ==> #[trigger] is_found(
                sources,
                workspaces,
                i,
            ),
    decreases workspaces.len(),
{
    if workspaces.len() > 0 {
        let front = workspaces.drop_last();
        let last = workspaces[workspaces.len() - 1];
        let before = merged(sources, front);
        let all = merged(sources, workspaces);
        every_entry_was_found(sources, front);
        first_match_facts(before, last);
        merging_keeps_git_entries(sources, front);
        assert forall|i: int| 0 <= i < all.len() implies #[trigger] is_found(
            sources,
            workspaces,
            i,
        ) by {
            if i < before.len() {
                assert(is_found(sources, front, i));
                assert(is_entry_of(all[i], before[i]));
                if i >= sources.len() {
                    let j = choose|j: int|
                        0 <= j < front.len() && is_entry_of(before[i], #[trigger] front[j])
                            && forall|k: int|
                            0 <= k < sources.len() ==> !same_directory(
                                #[trigger] sources[k],
                                front[j],
                            );
                    assert(is_entry_of(all[i], workspaces[j]));
                }
            } else {
                assert(all[i] == last);
                assert forall|k: int| 0 <= k < sources.len() implies !same_directory(
                    #[trigger] sources[k],
                    last,
                ) by {
                    assert(!same_directory(before[k], last));
                    assert(is_found(sources, front, k));
                }
                assert(is_entry_of(all[i], workspaces[workspaces.len() - 1]));
            }
        }
    }
}

/// A workspace whose directory neither git nor another workspace has is
/// reported exactly as jj listed it: its path, whether it is the main one, its
/// name, its commit, its repository and its backend.
pub proof fn unclaimed_workspaces_are_reported_unchanged(
    sources: Seq<LocatedSourceView>,
    workspaces: Seq<LocatedSourceView>,
    j: int,
)
    requires
        0 <= j < workspaces.len(),
        forall|k: int|
            0 <= k < sources.len() ==> !same_directory(#[trigger] sources[k], workspaces[j]),
        forall|k: int|
            0 <= k < workspaces.len() && k != j ==> !same_directory(
                #[trigger] workspaces[k],
                workspaces[j],
            ),
    ensures
        merged(sources, workspaces).contains(workspaces[j]),
        unlocated(merged(sources, workspaces)).contains(workspaces[j].source),
    decreases workspaces.len(),
{
    let front = workspaces.drop_last();
    let last = workspaces[workspaces.len() - 1];
    let before = merged(sources, front);
    let all = merged(sources, workspaces);
    let w = workspaces[j];
    first_match_facts(before, last);
    if j < front.len() {
        assert(front[j] == w);
        assert forall|k: int| 0 <= k < front.len() && k != j implies !same_directory(
            #[trigger] front[k],
            front[j],
        ) by {
            assert(front[k] == workspaces[k]);
        }
        unclaimed_workspaces_are_reported_unchanged(sources, front, j);
        let i = choose|i: int| 0 <= i < before.len() && before[i] == w;
        same_directory_symmetric(last, w);
        assert(!same_directory(workspaces[workspaces.len() - 1], w));
        assert(all[i] == w);
        assert(unlocated(all)[i] == w.source);
    } else {
        every_entry_was_found(sources, front);
        assert forall|i: int| 0 <= i < before.len() implies !same_directory(
            #[trigger] before[i],
            w,
        ) by {
            assert(is_found(sources, front, i));
            if i < sources.len() {
                assert(!same_directory(sources[i], w));
            } else {
                let k = choose|k: int|
                    0 <= k < front.len() && is_entry_of(before[i], #[trigger] front[k]) && forall|
                        m: int,
                    |
                        0 <= m < sources.len() ==> !same_directory(#[trigger] sources[m], front[k]);
                assert(!same_directory(workspaces[k], w));
            }
        }
        assert(all[before.len() as int] == w);
        assert(unlocated(all)[before.len() as int] == w.source);
    }
}

/// A git entry whose directory one workspace has is reported at its place, with
/// git's path and role and with the workspace's name and commit, and is owned
/// by jj.
pub proof fn claimed_entries_are_the_workspace(
    sources: Seq<LocatedSourceView>,
    workspaces: Seq<LocatedSourceView>,
    i: int,
    j: int,
)
    requires
        distinct_matches(sources, workspaces, i, j),
    ensures
        ({
            let entry = merged(sources, workspaces)[i];
            &&& is_entry_of(entry, sources[i])
            &&& entry.source.name == workspaces[j].source.name
            &&& entry.source.commit_id == workspaces[j].source.commit_id
            &&& entry.source.backend == VcsBackend::Jj
        }),
    decreases workspaces.len(),
{
    let front = workspaces.drop_last();
    let last = workspaces[workspaces.len() - 1];
    let before = merged(sources, front);
    first_match_facts(before, last);
    merging_keeps_git_entries(sources, front);
    merging_keeps_git_entries(sources, workspaces);
    assert(is_entry_of(merged(sources, workspaces)[i], sources[i]));
    assert(before[i].source.path == sources[i].source.path);
    if j < front.len() {
        assert forall|k: int| 0 <= k < front.len() && k != j implies !same_directory(
            sources[i],
            #[trigger] front[k],
        ) by {
            assert(front[k] == workspaces[k]);
        }
        assert(front[j] == workspaces[j]);
        claimed_entries_are_the_workspace(sources, front, i, j);
        assert(!same_directory(sources[i], workspaces[workspaces.len() - 1]));
    } else {
        assert(last == workspaces[j]);
        assert(same_directory(before[i], last));
        assert forall|k: int| 0 <= k < i implies !same_directory(#[trigger] before[k], last) by {
            assert(before[k].source.path == sources[k].source.path);
            assert(!same_directory(sources[k], workspaces[j]));
        }
    }
}

/// Whether git entry `i` and workspace `j` are one directory that no earlier git
/// entry and no other workspace has.
pub open spec fn distinct_matches(
    sources: Seq<LocatedSourceView>,
    workspaces: Seq<LocatedSourceView>,
    i: int,
    j: int,
) -> bool {
    &&& 0 <= i < sources.len()
    &&& 0 <= j < workspaces.len()
    &&& same_directory(sources[i], workspaces[j])
    &&& forall|k: int|
        0 <= k < i ==> !same_directory(#[trigger] sources[k], workspaces[j])
    &&& forall|k: int|
        0 <= k < workspaces.len() && k != j ==> !same_directory(
            sources[i],
            #[trigger] workspaces[k],
        )
}

/// Where git lists one main worktree, and every workspace that jj calls the
/// main one is a directory that git listed, exactly that one entry is the main
/// worktree.
pub proof fn there_is_one_main_worktree(
    sources: Seq<LocatedSourceView>,
    workspaces: Seq<LocatedSourceView>,
    main: int,
)
    requires
        0 <= main < sources.len(),
        forall|i: int|
            0 <= i < sources.len() ==> ((#[trigger] sources[i]).source.is_main <==> i == main),
        forall|j: int|
            0 <= j < workspaces.len() && (#[trigger] workspaces[j]).source.is_main
                ==> same_directory(sources[main], workspaces[j]),
    ensures
        forall|i: int|
            0 <= i < merged(sources, workspaces).len() ==> ((#[trigger] merged(
                sources,
                workspaces,
            )[i]).source.is_main <==> i == main),
        merged(sources, workspaces)[main].source.path == sources[main].source.path,
{
    let all = merged(sources, workspaces);
    every_entry_was_found(sources, workspaces);
    merging_keeps_git_entries(sources, workspaces);
    assert forall|i: int| 0 <= i < all.len() implies ((#[trigger] all[i]).source.is_main <==> i
        == main) by {
        assert(is_found(sources, workspaces, i));
        if i < sources.len() {
            assert(sources[i].source.is_main <==> i == main);
        } else {
            let j = choose|j: int|
                0 <= j < workspaces.len() && is_entry_of(all[i], #[trigger] workspaces[j])
                    && forall|k: int|
                    0 <= k < sources.len() ==> !same_directory(
                        #[trigger] sources[k],
                        workspaces[j],
                    );
            assert(!same_directory(sources[main], workspaces[j]));
        }
    }
    assert(is_found(sources, workspaces, main));
}

/// What git found is reported with git's paths and roles and the repository
/// that it was found in, and belongs to git until jj claims it. Where git finds
/// nothing or fails, only jj's workspaces are reported, and the other way
/// round.
pub proof fn either_backend_is_enough(
    root: Seq<u8>,
    git: Result<Vec<FoundWorktree>, String>,
    jj: Option<Result<Vec<LocatedSource>, String>>,
)
    ensures
        git is Err ==> git_listing(root, git).len() == 0,
        git matches Ok(found) ==> {
            &&& git_listing(root, git).len() == found@.len()
            &&& forall|i: int|
                0 <= i < found@.len() ==> {
                    let s = #[trigger] git_listing(root, git)[i];
                    &&& s.source.path == found@[i].path@
                    &&& s.source.is_main == found@[i].is_main
                    &&& s.source.repo_path == root
                    &&& s.source.name is None
                    &&& s.source.commit_id is None
                    &&& s.source.backend == VcsBackend::Git
                    &&& s.canonical == paths::opt_view(found@[i].canonical)
                }
        },
        !(jj matches Some(Ok(_))) ==> {
            &&& jj_listing(jj).len() == 0
            &&& merged(git_listing(root, git), jj_listing(jj)) == git_listing(root, git)
        },
        jj matches Some(Ok(found)) ==> {
            &&& jj_listing(jj).len() == found@.len()
            &&& forall|i: int| 0 <= i < found@.len() ==> #[trigger] jj_listing(jj)[i] == found@[i]@
        },
{
}

/// The sources are told apart by their canonical paths where both have one, and
/// by their paths otherwise.
pub proof fn canonical_paths_tell_directories_apart(a: LocatedSourceView, b: LocatedSourceView)
    ensures
        a.canonical is Some && b.canonical is Some ==> same_directory(a, b) == paths::same_path(
            a.canonical->0,
            b.canonical->0,
        ),
        a.canonical is None || b.canonical is None ==> same_directory(a, b) == paths::same_path(
            a.source.path,
            b.source.path,
        ),
{
}

// ---------------------------------------------------------------------------
// Loading
// ---------------------------------------------------------------------------

/// Whether any of the sources is owned by jj. jj takes a lock on the whole
/// repository, so such a repository loads its sources one after the other.
pub fn needs_sequential_loading(sources: &[WorktreeSource]) -> (r: bool)
    ensures
        r == exists|i: int| 0 <= i < sources@.len() && (#[trigger] sources@[i]).backend
            == VcsBackend::Jj,
{
    let mut i: usize = 0;
    while i < sources.len()
        invariant
            i <= sources.len(),
            forall|j: int| 0 <= j < i ==> (#[trigger] sources@[j]).backend != VcsBackend::Jj,
        decreases sources.len() - i,
    {
        if sources[i].backend == VcsBackend::Jj {
            return true;
        }
        i += 1;
    }
    false
}

/// How to read the status of a source.
#[derive(Debug)]
pub enum LoadPlan {
    /// Open the worktree with git.
    Git { path: FilePath, is_main: bool },
    /// Put questions to jj.
    Jj(WorkspaceLoad),
}

pub enum LoadPlanView {
    Git { path: Seq<u8>, is_main: bool },
    Jj(WorkspaceLoadView),
}

impl View for LoadPlan {
    type V = LoadPlanView;

    open spec fn view(&self) -> LoadPlanView {
        match *self {
            LoadPlan::Git { path, is_main } => LoadPlanView::Git { path: path@, is_main },
            LoadPlan::Jj(load) => LoadPlanView::Jj(load@),
        }
    }
}

/// The text of an optional text, or nothing.
pub open spec fn or_empty(o: Option<Seq<char>>) -> Seq<char> {
    match o {
        Some(s) => s,
        None => Seq::empty(),
    }
}

/// How to read the status of a source.
pub open spec fn load_plan(s: WorktreeSourceView) -> LoadPlanView {
    match s.backend {
        VcsBackend::Git => LoadPlanView::Git { path: s.path, is_main: s.is_main },
        VcsBackend::Jj => LoadPlanView::Jj(
            status::started_load(
                s.repo_path,
                s.path,
                s.is_main,
                or_empty(s.name),
                or_empty(s.commit_id),
            ),
        ),
    }
}

/// How to read the status of a source, by the backend that owns it.
pub fn load_worktree_info(source: WorktreeSource) -> (r: LoadPlan)
    ensures
        r@ == load_plan(source@),
{
    match source.backend {
        VcsBackend::Git => LoadPlan::Git { path: source.path, is_main: source.is_main },
        VcsBackend::Jj => {
            let name: String = match source.name {
                Some(n) => n,
                None => String::new(),
            };
            let commit_id: String = match source.commit_id {
                Some(c) => c,
                None => String::new(),
            };
            LoadPlan::Jj(
                load_workspace_info(source.repo_path, source.path, source.is_main, name, commit_id),
            )
        },
    }
}

// ---------------------------------------------------------------------------
// Creating and removing
// ---------------------------------------------------------------------------

/// How to create a worktree.
#[derive(Debug)]
pub enum CreatePlan {
    /// Let git create it from the repository.
    Git { repo_path: FilePath, name: String },
    /// Let jj create it.
    Jj(WorkspacePlan),
}

pub enum CreatePlanView {
    Git { repo_path: Seq<u8>, name: Seq<char> },
    Jj(WorkspacePlanView),
}

impl View for CreatePlan {
    type V = CreatePlanView;

    open spec fn view(&self) -> CreatePlanView {
        match *self {
            CreatePlan::Git { repo_path, name } => CreatePlanView::Git {
                repo_path: repo_path@,
                name: name@,
            },
            CreatePlan::Jj(plan) => CreatePlanView::Jj(plan@),
        }
    }
}

/// How to create the worktree `name` with the backend, or why it is refused.
pub open spec fn creation_plan(backend: VcsBackend, repo: Seq<u8>, name: Seq<char>) -> Result<
    CreatePlanView,
    Seq<char>,
> {
    match backend {
        VcsBackend::Git => Ok(CreatePlanView::Git { repo_path: repo, name }),
        VcsBackend::Jj => match worktree::creation(repo, name) {
            Ok(p) => Ok(CreatePlanView::Jj(p)),
            Err(e) => Err(e),
        },
    }
}

/// How to create the worktree `name` with the backend, or why it is refused.
pub fn create_workspace(backend: VcsBackend, repo_path: &FilePath, name: &str) -> (r: Result<
    CreatePlan,
    String,
>)
    ensures
        match r {
            Ok(p) => Ok::<CreatePlanView, Seq<char>>(p@),
            Err(e) => Err(e@),
        } == creation_plan(backend, repo_path@, name@),
{
    match backend {
        VcsBackend::Git => Ok(
            CreatePlan::Git { repo_path: repo_path.clone(), name: name.to_owned() },
        ),
        VcsBackend::Jj => match worktree::create_workspace(repo_path, name) {
            Ok(p) => Ok(CreatePlan::Jj(p)),
            Err(e) => Err(e),
        },
    }
}

/// How to remove a worktree.
#[derive(Debug)]
pub enum RemovePlan {
    /// Let git remove it from the repository.
    Git { repo_path: FilePath, workspace_path: FilePath },
    /// Let jj forget it, then delete its directory.
    Jj { forget_args: Vec<String>, workspace_path: FilePath, name: String },
}

pub enum RemovePlanView {
    Git { repo_path: Seq<u8>, workspace_path: Seq<u8> },
    Jj { forget_args: Seq<Seq<char>>, workspace_path: Seq<u8>, name: Seq<char> },
}

impl View for RemovePlan {
    type V = RemovePlanView;

    open spec fn view(&self) -> RemovePlanView {
        match *self {
            RemovePlan::Git { repo_path, workspace_path } => RemovePlanView::Git {
                repo_path: repo_path@,
                workspace_path: workspace_path@,
            },
            RemovePlan::Jj { forget_args, workspace_path, name } => RemovePlanView::Jj {
                forget_args: text::strings_view(forget_args@),
                workspace_path: workspace_path@,
                name: name@,
            },
        }
    }
}

/// How to remove the worktree with the backend that owns it.
pub fn remove_workspace(
    backend: VcsBackend,
    repo_path: &FilePath,
    workspace_path: &FilePath,
    name: &str,
) -> (r: RemovePlan)
    ensures
        r@ == match backend {
            VcsBackend::Git => RemovePlanView::Git {
                repo_path: repo_path@,
                workspace_path: workspace_path@,
            },
            VcsBackend::Jj => RemovePlanView::Jj {
                forget_args: worktree::forget_command(repo_path@, name@),
                workspace_path: workspace_path@,
                name: name@,
            },
        },
{
    match backend {
        VcsBackend::Git => RemovePlan::Git {
            repo_path: repo_path.clone(),
            workspace_path: workspace_path.clone(),
        },
        VcsBackend::Jj => RemovePlan::Jj {
            forget_args: worktree::forget_args(repo_path, name),
            workspace_path: workspace_path.clone(),
            name: name.to_owned(),
        },
    }
}

// ---------------------------------------------------------------------------
// Laws of loading, creating and validating
// ---------------------------------------------------------------------------

/// A source is read by the backend that owns it: with git where it lies, or by
/// asking jj about the workspace of its name and commit in its repository.
pub proof fn sources_are_read_by_their_owner(s: WorktreeSourceView)
    ensures
        s.backend == VcsBackend::Git ==> (load_plan(s) matches LoadPlanView::Git { path, is_main }
            && path == s.path && is_main == s.is_main),
        s.backend == VcsBackend::Jj ==> (load_plan(s) matches LoadPlanView::Jj(load) && {
            &&& load.repo_path == s.repo_path
            &&& load.workspace_path == s.path
            &&& load.is_main == s.is_main
            &&& s.name matches Some(n) ==> load.name == n
            &&& s.commit_id matches Some(c) ==> load.commit_id == c
            &&& load.stage is Label
        }),
{
}

/// git creates a worktree of any name in the repository; jj creates one beside
/// the repository, and only under a safe name.
pub proof fn worktrees_are_created_by_the_backend(repo: Seq<u8>, name: Seq<char>)
    ensures
        creation_plan(VcsBackend::Git, repo, name) == Ok::<CreatePlanView, Seq<char>>(
            CreatePlanView::Git { repo_path: repo, name },
        ),
        creation_plan(VcsBackend::Jj, repo, name) is Ok <==> repo::is_safe_name(name)
            && paths::parent_of(repo) is Some,
        creation_plan(VcsBackend::Jj, repo, name) matches Ok(plan) ==> (plan matches
            CreatePlanView::Jj(p) && p.workspace_path == paths::join_text_of(
            paths::parent_of(repo)->0,
            name,
        ) && p.make_dir == paths::parent_of(p.workspace_path)),
{
}

/// A path is accepted exactly when it exists and the backend that its `.jj`
/// directory decides on can open it; that backend is the answer.
pub proof fn usable_paths_are_accepted(
    path: Seq<u8>,
    exists: bool,
    dot_jj_exists: bool,
    probe: Result<Seq<char>, Seq<char>>,
)
    ensures
        validated(path, exists, dot_jj_exists, probe) is Ok <==> exists && probe is Ok,
        validated(path, exists, dot_jj_exists, probe) matches Ok(b) ==> (b == VcsBackend::Jj
            <==> dot_jj_exists),
{
}

/// Whoever is refused learns why: that the path does not exist, and which; what
/// git says; or which path jj cannot use.
pub proof fn refusals_say_why(
    path: Seq<u8>,
    exists: bool,
    dot_jj_exists: bool,
    probe: Result<Seq<char>, Seq<char>>,
)
    ensures
        validated(path, exists, dot_jj_exists, probe) matches Err(why) ==> {
            &&& !exists ==> bytes::text_of(path).is_suffix_of(why)
            &&& exists && !dot_jj_exists ==> probe->Err_0.is_suffix_of(why)
            &&& exists && dot_jj_exists ==> paths::debug_form(path).is_prefix_of(why)
        },
{
    if let Err(why) = validated(path, exists, dot_jj_exists, probe) {
        let shown = bytes::text_of(path);
        if !exists {
            assert(why.skip(why.len() - shown.len()) =~= shown);
        } else if !dot_jj_exists {
            let said = probe->Err_0;
            assert(why.skip(why.len() - said.len()) =~= said);
        }
    }
}

} // verus!
