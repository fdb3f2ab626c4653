//! The status of a jj workspace, gathered from a few questions to jj. Each
//! question depends on the answers to those before it.
use vstd::prelude::*;

use crate::bytes;
use crate::jj::query;
use crate::jj::query::{ahead_args, behind_args, bookmark_args, dirty_args, remote_args};
use crate::jj::repo;
use crate::jj::repo::{count_nonblank_lines, parse_bookmark_line};
use crate::paths::FilePath;
use crate::state::types::{Worktree, WorktreeStatus, WorktreeView};
use crate::text;
use crate::text::{string_of_range, to_chars, trim_chars};
use crate::vcs::VcsBackend;

verus! {

/// An answer of jj: its output, or why it failed.
pub type Answer = Result<String, String>;

// ---------------------------------------------------------------------------
// What an answer means
// ---------------------------------------------------------------------------

/// The output of an answer; a failed run counts as no output.
pub open spec fn output_of(answer: Result<Seq<char>, Seq<char>>) -> Seq<char> {
    match answer {
        Ok(out) => out,
        Err(_) => Seq::empty(),
    }
}

/// The first eight characters.
pub open spec fn short_id(commit: Seq<char>) -> Seq<char> {
    if commit.len() <= 8 {
        commit
    } else {
        commit.take(8)
    }
}

/// The label of a commit, and the bookmark that it is taken from: the nearest
/// bookmark, else the short commit id.
pub open spec fn branch_label(commit: Seq<char>, answer: Result<Seq<char>, Seq<char>>) -> (
    Seq<char>,
    Option<Seq<char>>,
) {
    match repo::bookmark_in(output_of(answer)) {
        Some(bookmark) => (bookmark, Some(bookmark)),
        None => (short_id(commit), None),
    }
}

/// How many changed files an answer lists, and whether there are any. A failed
/// run counts as nothing to report.
pub open spec fn dirty_status(answer: Result<Seq<char>, Seq<char>>) -> (u32, bool) {
    match answer {
        Ok(out) => (repo::nonblank_lines(out), repo::nonblank_lines(out) > 0),
        Err(_) => (0, false),
    }
}

/// How many commits an answer lists; none where the run failed.
pub open spec fn commit_count(answer: Result<Seq<char>, Seq<char>>) -> u32 {
    match answer {
        Ok(out) => repo::nonblank_lines(out),
        Err(_) => 0,
    }
}

/// Whether an answer lists anything.
pub open spec fn lists_any(answer: Result<Seq<char>, Seq<char>>) -> bool {
    text::trim(output_of(answer)).len() > 0
}

/// The label of a commit, and the bookmark that it is taken from.
pub fn load_branch_label(commit_id: &str, answer: &Answer) -> (r: (String, Option<String>))
    ensures
        (r.0@, text::opt_view(r.1)) == branch_label(commit_id@, text::outcome_view(*answer)),
{
    let bookmark: Option<String> = match answer {
        Ok(out) => parse_bookmark_line(out.as_str()),
        Err(_) => parse_bookmark_line(String::new().as_str()),
    };
    match bookmark {
        Some(b) => (b.clone(), Some(b)),
        None => {
            let v = to_chars(commit_id);
            let n: usize = if v.len() <= 8 {
                v.len()
            } else {
                8
            };
            let label = string_of_range(&v, 0, n);
            assert(label@ =~= short_id(commit_id@));
            (label, None)
        },
    }
}

/// How many changed files an answer lists, and whether there are any.
pub fn load_dirty_status(answer: &Answer) -> (r: (u32, bool))
    ensures
        r == dirty_status(text::outcome_view(*answer)),
{
    match answer {
        Ok(out) => {
            let n: u32 = count_nonblank_lines(out.as_str());
            (n, n > 0)
        },
        Err(_) => (0, false),
    }
}

fn count_commits(answer: &Answer) -> (n: u32)
    ensures
        n == commit_count(text::outcome_view(*answer)),
{
    match answer {
        Ok(out) => count_nonblank_lines(out.as_str()),
        Err(_) => 0,
    }
}

fn is_listed(answer: &Answer) -> (r: bool)
    ensures
        r == lists_any(text::outcome_view(*answer)),
{
    match answer {
        Ok(out) => {
            let v = to_chars(out.as_str());
            trim_chars(&v).len() > 0
        },
        Err(_) => false,
    }
}

// ---------------------------------------------------------------------------
// The sequence of questions
// ---------------------------------------------------------------------------

/// The question that is open.
#[derive(Debug)]
pub enum LoadStage {
    /// Which bookmark is nearest?
    Label,
    /// Has the bookmark been pushed under its name?
    Remote { bookmark: String },
    /// How many of its commits are not pushed?
    Ahead { bookmark: String },
    /// How many commits of the trunk does it lack?
    Behind { bookmark: String, ahead: u32 },
    /// Which files are changed?
    Dirty { branch: String, ahead: u32, behind: u32 },
}

/// The status of a workspace, partly gathered.
#[derive(Debug)]
pub struct WorkspaceLoad {
    pub repo_path: FilePath,
    pub workspace_path: FilePath,
    pub is_main: bool,
    pub name: String,
    pub commit_id: String,
    pub stage: LoadStage,
}

/// What an answer leads to.
#[derive(Debug)]
pub enum LoadProgress {
    Pending(WorkspaceLoad),
    Done(Worktree),
}

pub enum LoadStageView {
    Label,
    Remote { bookmark: Seq<char> },
    Ahead { bookmark: Seq<char> },
    Behind { bookmark: Seq<char>, ahead: u32 },
    Dirty { branch: Seq<char>, ahead: u32, behind: u32 },
}

#[verifier::ext_equal]
pub struct WorkspaceLoadView {
    pub repo_path: Seq<u8>,
    pub workspace_path: Seq<u8>,
    pub is_main: bool,
    pub name: Seq<char>,
    pub commit_id: Seq<char>,
    pub stage: LoadStageView,
}

pub enum LoadProgressView {
    Pending(WorkspaceLoadView),
    Done(WorktreeView),
}

impl View for LoadStage {
    type V = LoadStageView;

    open spec fn view(&self) -> LoadStageView {
        match *self {
            LoadStage::Label => LoadStageView::Label,
            LoadStage::Remote { bookmark } => LoadStageView::Remote { bookmark: bookmark@ },
            LoadStage::Ahead { bookmark } => LoadStageView::Ahead { bookmark: bookmark@ },
            LoadStage::Behind { bookmark, ahead } => LoadStageView::Behind {
                bookmark: bookmark@,
                ahead,
            },
            LoadStage::Dirty { branch, ahead, behind } => LoadStageView::Dirty {
                branch: branch@,
                ahead,
                behind,
            },
        }
    }
}

impl View for WorkspaceLoad {
    type V = WorkspaceLoadView;

    open spec fn view(&self) -> WorkspaceLoadView {
        WorkspaceLoadView {
            repo_path: self.repo_path@,
            workspace_path: self.workspace_path@,
            is_main: self.is_main,
            name: self.name@,
            commit_id: self.commit_id@,
            stage: self.stage@,
        }
    }
}

impl View for LoadProgress {
    type V = LoadProgressView;

    open spec fn view(&self) -> LoadProgressView {
        match *self {
            LoadProgress::Pending(load) => LoadProgressView::Pending(load@),
            LoadProgress::Done(worktree) => LoadProgressView::Done(worktree@),
        }
    }
}

impl WorkspaceLoadView {
    /// The open question.
    pub open spec fn question(self) -> Seq<Seq<char>> {
        match self.stage {
            LoadStageView::Label => query::bookmark_query(self.repo_path, self.commit_id),
            LoadStageView::Remote { bookmark } => query::commits_query(
                self.repo_path,
                query::remote_revset(bookmark),
            ),
            LoadStageView::Ahead { bookmark } => query::commits_query(
                self.repo_path,
                query::ahead_revset(bookmark),
            ),
            LoadStageView::Behind { bookmark, .. } => query::commits_query(
                self.repo_path,
                query::behind_revset(bookmark),
            ),
            LoadStageView::Dirty { .. } => query::dirty_query(self.workspace_path),
        }
    }

    /// The same workspace at another question.
    pub open spec fn at(self, stage: LoadStageView) -> LoadProgressView {
        LoadProgressView::Pending(WorkspaceLoadView { stage, ..self })
    }

    /// What the answer to the open question leads to.
    pub open spec fn answered(self, answer: Result<Seq<char>, Seq<char>>) -> LoadProgressView {
        match self.stage {
            LoadStageView::Label => {
                let (branch, bookmark) = branch_label(self.commit_id, answer);
                match bookmark {
                    Some(bookmark) => self.at(LoadStageView::Remote { bookmark }),
                    None => self.at(LoadStageView::Dirty { branch, ahead: 0, behind: 0 }),
                }
            },
            LoadStageView::Remote { bookmark } => if lists_any(answer) {
                self.at(LoadStageView::Ahead { bookmark })
            } else {
                self.at(LoadStageView::Behind { bookmark, ahead: 0 })
            },
            LoadStageView::Ahead { bookmark } => self.at(
                LoadStageView::Behind { bookmark, ahead: commit_count(answer) },
            ),
            LoadStageView::Behind { bookmark, ahead } => self.at(
                LoadStageView::Dirty { branch: bookmark, ahead, behind: commit_count(answer) },
            ),
            LoadStageView::Dirty { branch, ahead, behind } => {
                let (uncommitted_changes, is_dirty) = dirty_status(answer);
                LoadProgressView::Done(
                    WorktreeView {
                        name: self.name,
                        path: self.workspace_path,
                        branch,
                        is_main: self.is_main,
                        status: WorktreeStatus { uncommitted_changes, ahead, behind, is_dirty },
                        pr: None,
                        backend: VcsBackend::Jj,
                    },
                )
            },
        }
    }

    /// How many questions can still follow the open one.
    pub open spec fn questions_left(self) -> nat {
        match self.stage {
            LoadStageView::Label => 4,
            LoadStageView::Remote { .. } => 3,
            LoadStageView::Ahead { .. } => 2,
            LoadStageView::Behind { .. } => 1,
            LoadStageView::Dirty { .. } => 0,
        }
    }
}

/// A load that has asked nothing yet.
pub open spec fn started_load(
    repo_path: Seq<u8>,
    workspace_path: Seq<u8>,
    is_main: bool,
    name: Seq<char>,
    commit_id: Seq<char>,
) -> WorkspaceLoadView {
    WorkspaceLoadView {
        repo_path,
        workspace_path,
        is_main,
        name,
        commit_id,
        stage: LoadStageView::Label,
    }
}

/// Starts gathering the status of a workspace. The repository and the commit
/// drive all questions but the last, so those work for a workspace whose
/// working copy is stale.
pub fn load_workspace_info(
    repo_path: FilePath,
    workspace_path: FilePath,
    is_main: bool,
    name: String,
    commit_id: String,
) -> (r: WorkspaceLoad)
    ensures
        r@ == started_load(repo_path@, workspace_path@, is_main, name@, commit_id@),
{
    WorkspaceLoad { repo_path, workspace_path, is_main, name, commit_id, stage: LoadStage::Label }
}

impl WorkspaceLoad {
    /// The arguments for jj that put the open question.
    pub fn next_args(&self) -> (r: Vec<String>)
        ensures
            text::strings_view(r@) == self@.question(),
    {
        match &self.stage {
            LoadStage::Label => bookmark_args(&self.repo_path, self.commit_id.as_str()),
            LoadStage::Remote { bookmark } => remote_args(
                &self.repo_path,
                bookmark.as_str(),
            ),
            LoadStage::Ahead { bookmark } => ahead_args(
                &self.repo_path,
                bookmark.as_str(),
            ),
            LoadStage::Behind { bookmark, .. } => behind_args(
                &self.repo_path,
                bookmark.as_str(),
            ),
            LoadStage::Dirty { .. } => dirty_args(&self.workspace_path),
        }
    }

    /// Takes the answer to the open question.
    pub fn resume(self, answer: &Answer) -> (r: LoadProgress)
        ensures
            r@ == self@.answered(text::outcome_view(*answer)),
            r matches LoadProgress::Pending(next) ==> next@.questions_left()
                < self@.questions_left(),
    {
        let WorkspaceLoad { repo_path, workspace_path, is_main, name, commit_id, stage } = self;
        let next: LoadStage = match stage {
            LoadStage::Label => {
                let (branch, bookmark) = load_branch_label(commit_id.as_str(), answer);
                match bookmark {
                    Some(bookmark) => LoadStage::Remote { bookmark },
                    None => LoadStage::Dirty { branch, ahead: 0, behind: 0 },
                }
            },
            LoadStage::Remote { bookmark } => if is_listed(answer) {
                LoadStage::Ahead { bookmark }
            } else {
                LoadStage::Behind { bookmark, ahead: 0 }
            },
            LoadStage::Ahead { bookmark } => LoadStage::Behind {
                bookmark,
                ahead: count_commits(answer),
            },
            LoadStage::Behind { bookmark, ahead } => LoadStage::Dirty {
                branch: bookmark,
                ahead,
                behind: count_commits(answer),
            },
            LoadStage::Dirty { branch, ahead, behind } => {
                let (uncommitted_changes, is_dirty) = load_dirty_status(answer);
                return LoadProgress::Done(
                    Worktree {
                        name,
                        path: workspace_path,
                        branch,
                        is_main,
                        status: WorktreeStatus { uncommitted_changes, ahead, behind, is_dirty },
                        pr: None,
                        backend: VcsBackend::Jj,
                    },
                );
            },
        };
        LoadProgress::Pending(
            WorkspaceLoad { repo_path, workspace_path, is_main, name, commit_id, stage: next },
        )
    }
}

// ---------------------------------------------------------------------------
// Laws
// ---------------------------------------------------------------------------

/// The commits that are ahead of and behind the bookmark, where jj answers as
/// `ask` says. Without a bookmark both are zero and nothing is asked; a
/// bookmark that was never pushed under its name is not ahead of anything.
pub open spec fn rebase_and_push_status(
    repo: Seq<u8>,
    bookmark: Option<Seq<char>>,
    ask: spec_fn(Seq<Seq<char>>) -> Result<Seq<char>, Seq<char>>,
) -> (u32, u32) {
    match bookmark {
        None => (0, 0),
        Some(b) => {
            let has_remote = lists_any(ask(query::commits_query(repo, query::remote_revset(b))));
            let ahead = if has_remote {
                commit_count(ask(query::commits_query(repo, query::ahead_revset(b))))
            } else {
                0
            };
            (ahead, commit_count(ask(query::commits_query(repo, query::behind_revset(b)))))
        },
    }
}

/// The status of a workspace, where jj answers as `ask` says.
pub open spec fn workspace_info(
    repo_path: Seq<u8>,
    workspace_path: Seq<u8>,
    is_main: bool,
    name: Seq<char>,
    commit_id: Seq<char>,
    ask: spec_fn(Seq<Seq<char>>) -> Result<Seq<char>, Seq<char>>,
) -> WorktreeView {
    let (branch, bookmark) = branch_label(
        commit_id,
        ask(query::bookmark_query(repo_path, commit_id)),
    );
    let (ahead, behind) = rebase_and_push_status(repo_path, bookmark, ask);
    let (uncommitted_changes, is_dirty) = dirty_status(ask(query::dirty_query(workspace_path)));
    WorktreeView {
        name,
        path: workspace_path,
        branch,
        is_main,
        status: WorktreeStatus { uncommitted_changes, ahead, behind, is_dirty },
        pr: None,
        backend: VcsBackend::Jj,
    }
}

/// The worktree that putting question after question arrives at, where jj
/// answers as `ask` says.
pub open spec fn asked_through(
    load: WorkspaceLoadView,
    ask: spec_fn(Seq<Seq<char>>) -> Result<Seq<char>, Seq<char>>,
) -> WorktreeView
    decreases load.questions_left(),
{
    match load.answered(ask(load.question())) {
        LoadProgressView::Pending(next) => asked_through(next, ask),
        LoadProgressView::Done(worktree) => worktree,
    }
}

/// Putting the questions one after the other ends, after five at most, in the
/// workspace's status.
pub proof fn questions_lead_to_the_status(
    repo_path: Seq<u8>,
    workspace_path: Seq<u8>,
    is_main: bool,
    name: Seq<char>,
    commit_id: Seq<char>,
    ask: spec_fn(Seq<Seq<char>>) -> Result<Seq<char>, Seq<char>>,
)
    ensures
        asked_through(
            started_load(repo_path, workspace_path, is_main, name, commit_id),
            ask,
        ) == workspace_info(repo_path, workspace_path, is_main, name, commit_id, ask),
        started_load(repo_path, workspace_path, is_main, name, commit_id).questions_left() == 4,
{
    reveal_with_fuel(asked_through, 6);
}

/// Without a bookmark, a workspace is neither ahead nor behind, and only its
/// changed files are asked for.
pub proof fn no_bookmark_asks_no_more(
    load: WorkspaceLoadView,
    answer: Result<Seq<char>, Seq<char>>,
)
    requires
        load.stage is Label,
        repo::bookmark_in(output_of(answer)) is None,
    ensures
        load.answered(answer) == load.at(
            LoadStageView::Dirty { branch: short_id(load.commit_id), ahead: 0, behind: 0 },
        ),
{
}

/// A failed question never fails the workspace: it counts as no bookmark, no
/// commits and no changed files.
pub proof fn failures_degrade(
    repo_path: Seq<u8>,
    workspace_path: Seq<u8>,
    is_main: bool,
    name: Seq<char>,
    commit_id: Seq<char>,
    ask: spec_fn(Seq<Seq<char>>) -> Result<Seq<char>, Seq<char>>,
)
    requires
        forall|q: Seq<Seq<char>>| (#[trigger] ask(q)) is Err,
    ensures
        workspace_info(repo_path, workspace_path, is_main, name, commit_id, ask) == (WorktreeView {
            name,
            path: workspace_path,
            branch: short_id(commit_id),
            is_main,
            status: WorktreeStatus { uncommitted_changes: 0, ahead: 0, behind: 0, is_dirty: false },
            pr: None,
            backend: VcsBackend::Jj,
        }),
{
    assert(text::lines(Seq::empty()).len() == 0);
}

/// A stale workspace stays visible: everything but its changed files is asked
/// of the repository, without touching a working copy. Only the changed files
/// are asked of the workspace itself.
pub proof fn only_changes_are_asked_of_the_workspace(load: WorkspaceLoadView)
    ensures
        load.question()[0] == "-R"@,
        load.stage is Dirty ==> load.question()[1] == bytes::text_of(load.workspace_path),
        !(load.stage is Dirty) ==> load.question()[1] == bytes::text_of(load.repo_path) && load.question()[2]
            == "--ignore-working-copy"@,
{
}

/// How many lines that are not blank an answer has; none where the run failed.
pub open spec fn lines_in(answer: Result<Seq<char>, Seq<char>>) -> int {
    match answer {
        Ok(out) => repo::nonblank_lines(out) as int,
        Err(_) => 0,
    }
}

/// Whether an answer holds more than white space.
pub open spec fn says_something(answer: Result<Seq<char>, Seq<char>>) -> bool {
    answer matches Ok(out) && exists|i: int|
        0 <= i < out.len() && !text::is_white_space(#[trigger] out[i])
}

/// The bookmark that an answer names; none where the run failed.
pub open spec fn bookmark_answered(answer: Result<Seq<char>, Seq<char>>) -> Option<Seq<char>> {
    match answer {
        Ok(out) => repo::bookmark_in(out),
        Err(_) => None,
    }
}

/// The status of a workspace is what jj answers about it. Its branch is the
/// nearest bookmark; it is behind by the lines of the question for what the
/// trunk has and the bookmark lacks, and ahead by those of the question for
/// what the bookmark has and its remote copies lack, where there are such
/// copies. Its changes are the lines of the question for changed files. Without
/// a bookmark it is labelled by the first eight characters of its commit, and
/// is neither ahead nor behind.
pub proof fn the_status_is_what_jj_answers(
    repo_path: Seq<u8>,
    workspace_path: Seq<u8>,
    is_main: bool,
    name: Seq<char>,
    commit_id: Seq<char>,
    ask: spec_fn(Seq<Seq<char>>) -> Result<Seq<char>, Seq<char>>,
)
    ensures
        ({
            let w = asked_through(
                started_load(repo_path, workspace_path, is_main, name, commit_id),
                ask,
            );
            let about = |revset: Seq<char>| ask(query::commits_query(repo_path, revset));
            let labels = ask(query::bookmark_query(repo_path, commit_id));
            &&& w.name == name
            &&& w.path == workspace_path
            &&& w.is_main == is_main
            &&& w.backend == VcsBackend::Jj
            &&& w.pr is None
            &&& w.status.uncommitted_changes == lines_in(ask(query::dirty_query(workspace_path)))
            &&& w.status.is_dirty <==> w.status.uncommitted_changes > 0
            &&& match bookmark_answered(labels) {
                Some(b) => {
                    &&& w.branch == b
                    &&& w.status.behind == lines_in(about(query::behind_revset(b)))
                    &&& says_something(about(query::remote_revset(b))) ==> w.status.ahead
                        == lines_in(about(query::ahead_revset(b)))
                    &&& !says_something(about(query::remote_revset(b))) ==> w.status.ahead == 0
                },
                None => {
                    &&& w.branch.is_prefix_of(commit_id)
                    &&& w.branch.len() == 8 || (w.branch == commit_id && commit_id.len() < 8)
                    &&& w.status.ahead == 0
                    &&& w.status.behind == 0
                },
            }
        }),
{
    questions_lead_to_the_status(repo_path, workspace_path, is_main, name, commit_id, ask);
    let labels = ask(query::bookmark_query(repo_path, commit_id));
    assert(text::lines(Seq::empty()).len() == 0);
    if let Some(b) = repo::bookmark_in(output_of(labels)) {
        let remote = ask(query::commits_query(repo_path, query::remote_revset(b)));
        text::trimming_takes_white_space(output_of(remote));
    }
}

} // verus!
