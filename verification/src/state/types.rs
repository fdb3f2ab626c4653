//! The data that the application shows and edits.
use vstd::prelude::*;
use vstd::utf8;

use crate::bytes;
use crate::bytes::bytes_of_range;
use crate::config::{RepoConfig, RepoConfigView};
use crate::edit;
use crate::keybindings::{BindingView, Keybindings};
use crate::paths;
use crate::paths::{looked_up, FilePath, UserDir, UserDirView};
use crate::text;
use crate::vcs::VcsBackend;

verus! {

/// What the user sees and has selected.
#[derive(Debug, Clone)]
pub struct AppState {
    pub repos: Vec<Repository>,
    pub selected_repo_idx: usize,
    pub selected_worktree_idx: usize,
    pub focus: PanelFocus,
    pub new_worktree_dialog: Option<NewWorktreeDialog>,
    pub add_repo_dialog: Option<AddRepoDialog>,
    pub is_refreshing: bool,
    pub should_quit: bool,
    pub delete_worktree_dialog: Option<DeleteWorktreeDialog>,
    pub keybindings: Keybindings,
}

/// One row of the worktree list.
#[derive(Debug, Clone, Copy, PartialEq, Eq, Structural)]
pub enum FlatListItem {
    Repo { idx: usize, is_selected: bool },
    Worktree { repo_idx: usize, worktree_idx: usize, is_selected: bool },
}

/// The panel that receives keys.
#[derive(Debug, Clone, Copy, PartialEq, Eq, Structural)]
pub enum PanelFocus {
    WorktreeList,
    Terminal,
}

/// A tracked repository and what is known of its worktrees.
#[derive(Debug, Clone)]
pub struct Repository {
    pub config: RepoConfig,
    pub display_name: String,
    pub worktrees: Vec<Worktree>,
    pub is_expanded: bool,
    /// The default backend for new worktrees.
    pub backend: VcsBackend,
}

/// One worktree or workspace of a repository.
#[derive(Debug, Clone)]
pub struct Worktree {
    pub name: String,
    pub path: FilePath,
    pub branch: String,
    pub is_main: bool,
    pub status: WorktreeStatus,
    pub pr: Option<PullRequest>,
    /// The backend that owns this entry; a colocated repository can hold both
    /// kinds.
    pub backend: VcsBackend,
}

/// How a worktree differs from what is committed and pushed.
#[derive(Debug, Clone, Copy, PartialEq, Eq, Structural)]
pub struct WorktreeStatus {
    pub uncommitted_changes: u32,
    pub ahead: u32,
    pub behind: u32,
    pub is_dirty: bool,
}

/// The pull request of a worktree's branch.
#[derive(Debug, Clone)]
pub struct PullRequest {
    pub number: u64,
    pub title: String,
    pub state: PrState,
    pub is_draft: bool,
    pub url: String,
}

#[derive(Debug, Clone, Copy, PartialEq, Eq, Structural)]
pub enum PrState {
    Open,
    Closed,
    Merged,
}

/// The form that asks for the name of a new worktree.
#[derive(Debug, Clone)]
pub struct NewWorktreeDialog {
    pub repo_idx: usize,
    pub backend: VcsBackend,
    pub branch_name: String,
    /// Byte offset into `branch_name`.
    pub cursor_pos: usize,
    pub error: Option<String>,
    pub is_creating: bool,
}

/// The form that asks for the path of a repository to track.
#[derive(Debug, Clone)]
pub struct AddRepoDialog {
    pub path_input: String,
    /// Byte offset into `path_input`.
    pub cursor_pos: usize,
    pub error: Option<String>,
    pub is_adding: bool,
}

/// The question whether to delete a worktree.
#[derive(Debug, Clone)]
pub struct DeleteWorktreeDialog {
    pub repo_idx: usize,
    pub worktree_idx: usize,
    pub repo_path: FilePath,
    pub worktree_path: FilePath,
    pub branch_name: String,
    pub backend: VcsBackend,
    pub workspace_name: String,
    pub is_deleting: bool,
    pub error: Option<String>,
}

// ---------------------------------------------------------------------------
// Views
// ---------------------------------------------------------------------------

#[verifier::ext_equal]
pub struct AppStateView {
    pub repos: Seq<RepositoryView>,
    pub selected_repo_idx: usize,
    pub selected_worktree_idx: usize,
    pub focus: PanelFocus,
    pub new_worktree_dialog: Option<NewWorktreeDialogView>,
    pub add_repo_dialog: Option<AddRepoDialogView>,
    pub is_refreshing: bool,
    pub should_quit: bool,
    pub delete_worktree_dialog: Option<DeleteWorktreeDialogView>,
    pub keybindings: Seq<BindingView>,
}

#[verifier::ext_equal]
pub struct RepositoryView {
    pub config: RepoConfigView,
    pub display_name: Seq<char>,
    pub worktrees: Seq<WorktreeView>,
    pub is_expanded: bool,
    pub backend: VcsBackend,
}

#[verifier::ext_equal]
pub struct WorktreeView {
    pub name: Seq<char>,
    pub path: Seq<u8>,
    pub branch: Seq<char>,
    pub is_main: bool,
    pub status: WorktreeStatus,
    pub pr: Option<PullRequestView>,
    pub backend: VcsBackend,
}

#[verifier::ext_equal]
pub struct PullRequestView {
    pub number: u64,
    pub title: Seq<char>,
    pub state: PrState,
    pub is_draft: bool,
    pub url: Seq<char>,
}

#[verifier::ext_equal]
pub struct NewWorktreeDialogView {
    pub repo_idx: usize,
    pub backend: VcsBackend,
    pub branch_name: Seq<char>,
    pub cursor_pos: usize,
    pub error: Option<Seq<char>>,
    pub is_creating: bool,
}

#[verifier::ext_equal]
pub struct AddRepoDialogView {
    pub path_input: Seq<char>,
    pub cursor_pos: usize,
    pub error: Option<Seq<char>>,
    pub is_adding: bool,
}

#[verifier::ext_equal]
pub struct DeleteWorktreeDialogView {
    pub repo_idx: usize,
    pub worktree_idx: usize,
    pub repo_path: Seq<u8>,
    pub worktree_path: Seq<u8>,
    pub branch_name: Seq<char>,
    pub backend: VcsBackend,
    pub workspace_name: Seq<char>,
    pub is_deleting: bool,
    pub error: Option<Seq<char>>,
}

impl View for PullRequest {
    type V = PullRequestView;

    open spec fn view(&self) -> PullRequestView {
        PullRequestView {
            number: self.number,
            title: self.title@,
            state: self.state,
            is_draft: self.is_draft,
            url: self.url@,
        }
    }
}

/// The pull request of an optional pull request.
pub open spec fn pr_view(pr: Option<PullRequest>) -> Option<PullRequestView> {
    match pr {
        Some(p) => Some(p@),
        None => None,
    }
}

impl View for Worktree {
    type V = WorktreeView;

    open spec fn view(&self) -> WorktreeView {
        WorktreeView {
            name: self.name@,
            path: self.path@,
            branch: self.branch@,
            is_main: self.is_main,
            status: self.status,
            pr: pr_view(self.pr),
            backend: self.backend,
        }
    }
}

/// The worktrees of a list.
pub open spec fn worktrees_view(s: Seq<Worktree>) -> Seq<WorktreeView> {
    s.map_values(|w: Worktree| w@)
}

impl View for Repository {
    type V = RepositoryView;

    open spec fn view(&self) -> RepositoryView {
        RepositoryView {
            config: self.config@,
            display_name: self.display_name@,
            worktrees: worktrees_view(self.worktrees@),
            is_expanded: self.is_expanded,
            backend: self.backend,
        }
    }
}

/// The repositories of a list.
pub open spec fn repos_view(s: Seq<Repository>) -> Seq<RepositoryView> {
    s.map_values(|r: Repository| r@)
}

impl View for NewWorktreeDialog {
    type V = NewWorktreeDialogView;

    open spec fn view(&self) -> NewWorktreeDialogView {
        NewWorktreeDialogView {
            repo_idx: self.repo_idx,
            backend: self.backend,
            branch_name: self.branch_name@,
            cursor_pos: self.cursor_pos,
            error: text::opt_view(self.error),
            is_creating: self.is_creating,
        }
    }
}

impl View for AddRepoDialog {
    type V = AddRepoDialogView;

    open spec fn view(&self) -> AddRepoDialogView {
        AddRepoDialogView {
            path_input: self.path_input@,
            cursor_pos: self.cursor_pos,
            error: text::opt_view(self.error),
            is_adding: self.is_adding,
        }
    }
}

impl View for DeleteWorktreeDialog {
    type V = DeleteWorktreeDialogView;

    open spec fn view(&self) -> DeleteWorktreeDialogView {
        DeleteWorktreeDialogView {
            repo_idx: self.repo_idx,
            worktree_idx: self.worktree_idx,
            repo_path: self.repo_path@,
            worktree_path: self.worktree_path@,
            branch_name: self.branch_name@,
            backend: self.backend,
            workspace_name: self.workspace_name@,
            is_deleting: self.is_deleting,
            error: text::opt_view(self.error),
        }
    }
}

impl View for AppState {
    type V = AppStateView;

    open spec fn view(&self) -> AppStateView {
        AppStateView {
            repos: repos_view(self.repos@),
            selected_repo_idx: self.selected_repo_idx,
            selected_worktree_idx: self.selected_worktree_idx,
            focus: self.focus,
            new_worktree_dialog: match self.new_worktree_dialog {
                Some(d) => Some(d@),
                None => None,
            },
            add_repo_dialog: match self.add_repo_dialog {
                Some(d) => Some(d@),
                None => None,
            },
            is_refreshing: self.is_refreshing,
            should_quit: self.should_quit,
            delete_worktree_dialog: match self.delete_worktree_dialog {
                Some(d) => Some(d@),
                None => None,
            },
            keybindings: self.keybindings@,
        }
    }
}

// ---------------------------------------------------------------------------
// Model of the worktree list
// ---------------------------------------------------------------------------

/// The rows of one repository: its own row, then its worktrees when expanded.
pub open spec fn repo_rows(
    idx: nat,
    worktrees: nat,
    is_expanded: bool,
    sel_repo: usize,
    sel_worktree: usize,
) -> Seq<FlatListItem> {
    let head = seq![
        FlatListItem::Repo { idx: idx as usize, is_selected: idx as usize == sel_repo },
    ];
    if is_expanded {
        head + Seq::new(
            worktrees,
            |j: int|
                FlatListItem::Worktree {
                    repo_idx: idx as usize,
                    worktree_idx: j as usize,
                    is_selected: idx as usize == sel_repo && j as usize == sel_worktree,
                },
        )
    } else {
        head
    }
}

/// The rows of all repositories, in order.
pub open spec fn flat_rows(
    repos: Seq<RepositoryView>,
    sel_repo: usize,
    sel_worktree: usize,
) -> Seq<FlatListItem>
    decreases repos.len(),
{
    if repos.len() == 0 {
        Seq::empty()
    } else {
        let last = repos.last();
        flat_rows(repos.drop_last(), sel_repo, sel_worktree) + repo_rows(
            (repos.len() - 1) as nat,
            last.worktrees.len(),
            last.is_expanded,
            sel_repo,
            sel_worktree,
        )
    }
}

/// Whether the row is a worktree.
pub open spec fn is_worktree_row(row: FlatListItem) -> bool {
    row is Worktree
}

/// Whether the row is the worktree `w` of repository `r`.
pub open spec fn is_row_of(row: FlatListItem, r: usize, w: usize) -> bool {
    row matches FlatListItem::Worktree { repo_idx, worktree_idx, .. } && repo_idx == r
        && worktree_idx == w
}

/// The first row at or after `from` that is the worktree `w` of repository
/// `r`, or the number of rows.
pub open spec fn row_of_from(rows: Seq<FlatListItem>, from: int, r: usize, w: usize) -> int
    decreases rows.len() - from,
{
    if from >= rows.len() || is_row_of(rows[from], r, w) {
        from
    } else {
        row_of_from(rows, from + 1, r, w)
    }
}

/// The row of the selected worktree; the first row when it is not shown.
pub open spec fn selected_row(rows: Seq<FlatListItem>, r: usize, w: usize) -> int {
    let i = row_of_from(rows, 0, r, w);
    if i < rows.len() {
        i
    } else {
        0
    }
}

/// The first worktree row at or after `from`, or the number of rows.
pub open spec fn next_worktree_row(rows: Seq<FlatListItem>, from: int) -> int
    decreases rows.len() - from,
{
    if from >= rows.len() {
        rows.len() as int
    } else if is_worktree_row(rows[from]) {
        from
    } else {
        next_worktree_row(rows, from + 1)
    }
}

/// The last worktree row before `before`, or -1.
pub open spec fn previous_worktree_row(rows: Seq<FlatListItem>, before: int) -> int
    decreases before,
{
    if before <= 0 {
        -1
    } else if is_worktree_row(rows[before - 1]) {
        before - 1
    } else {
        previous_worktree_row(rows, before - 1)
    }
}

/// The worktree row that moving down from row `current` selects, if there is
/// one: the next, else the first.
pub open spec fn row_below(rows: Seq<FlatListItem>, current: int) -> Option<int> {
    let next = next_worktree_row(rows, current + 1);
    let first = next_worktree_row(rows, 0);
    if next < rows.len() {
        Some(next)
    } else if first < rows.len() {
        Some(first)
    } else {
        None
    }
}

/// The worktree row that moving up from row `current` selects, if there is
/// one: the previous, else the last.
pub open spec fn row_above(rows: Seq<FlatListItem>, current: int) -> Option<int> {
    let previous = previous_worktree_row(rows, current);
    let last = previous_worktree_row(rows, rows.len() as int);
    if previous >= 0 {
        Some(previous)
    } else if last >= 0 {
        Some(last)
    } else {
        None
    }
}

impl AppStateView {
    /// The rows of the worktree list.
    pub open spec fn rows(self) -> Seq<FlatListItem> {
        flat_rows(self.repos, self.selected_repo_idx, self.selected_worktree_idx)
    }

    /// The row of the selected worktree.
    pub open spec fn current_row(self) -> int {
        selected_row(self.rows(), self.selected_repo_idx, self.selected_worktree_idx)
    }

    /// The selected worktree, if the selection points at one.
    pub open spec fn selected(self) -> Option<WorktreeView> {
        if self.selected_repo_idx < self.repos.len() && self.selected_worktree_idx
            < self.repos[self.selected_repo_idx as int].worktrees.len() {
            Some(
                self.repos[self.selected_repo_idx as int].worktrees[self.selected_worktree_idx as int],
            )
        } else {
            None
        }
    }

    /// The path of the selected worktree.
    pub open spec fn selected_path(self) -> Option<Seq<u8>> {
        match self.selected() {
            Some(w) => Some(w.path),
            None => None,
        }
    }

    /// The state with the worktree of the given row selected.
    pub open spec fn moved(self, row: Option<int>) -> AppStateView {
        match row {
            Some(i) => match self.rows()[i] {
                FlatListItem::Worktree { repo_idx, worktree_idx, .. } => AppStateView {
                    selected_repo_idx: repo_idx,
                    selected_worktree_idx: worktree_idx,
                    ..self
                },
                _ => self,
            },
            None => self,
        }
    }

    /// The state after moving the selection down.
    pub open spec fn moved_down(self) -> AppStateView {
        self.moved(row_below(self.rows(), self.current_row()))
    }

    /// The state after moving the selection up.
    pub open spec fn moved_up(self) -> AppStateView {
        self.moved(row_above(self.rows(), self.current_row()))
    }

    /// The state at startup: nothing open, the first worktree selected.
    pub open spec fn initial(repos: Seq<RepositoryView>, keybindings: Seq<BindingView>) -> Self {
        AppStateView {
            repos,
            selected_repo_idx: 0,
            selected_worktree_idx: 0,
            focus: PanelFocus::WorktreeList,
            new_worktree_dialog: None,
            add_repo_dialog: None,
            is_refreshing: false,
            should_quit: false,
            delete_worktree_dialog: None,
            keybindings,
        }
    }
}

impl AppState {
    /// The state at startup: nothing open, the first worktree selected.
    pub fn new(repos: Vec<Repository>, keybindings: Keybindings) -> (r: Self)
        ensures
            r@ == AppStateView::initial(repos_view(repos@), keybindings@),
            r.repos == repos,
            r.keybindings == keybindings,
    {
        AppState {
            repos,
            selected_repo_idx: 0,
            selected_worktree_idx: 0,
            focus: PanelFocus::WorktreeList,
            new_worktree_dialog: None,
            add_repo_dialog: None,
            is_refreshing: false,
            should_quit: false,
            delete_worktree_dialog: None,
            keybindings,
        }
    }

    pub fn selected_worktree(&self) -> (r: Option<&Worktree>)
        ensures
            match r {
                Some(w) => self@.selected() == Some(w@),
                None => self@.selected() is None,
            },
    {
        if self.selected_repo_idx < self.repos.len() {
            let repo: &Repository = &self.repos[self.selected_repo_idx];
            if self.selected_worktree_idx < repo.worktrees.len() {
                return Some(&repo.worktrees[self.selected_worktree_idx]);
            }
        }
        None
    }

    pub fn selected_worktree_path(&self) -> (r: Option<&FilePath>)
        ensures
            match r {
                Some(p) => self@.selected_path() == Some(p@),
                None => self@.selected_path() is None,
            },
    {
        match self.selected_worktree() {
            Some(w) => Some(&w.path),
            None => None,
        }
    }

    /// The rows of the worktree list: each repository, followed by its
    /// worktrees when it is expanded.
    pub fn flat_list_items(&self) -> (items: Vec<FlatListItem>)
        ensures
            items@ == self@.rows(),
    {
        let mut items: Vec<FlatListItem> = Vec::new();
        let mut r: usize = 0;
        assert(repos_view(self.repos@).take(0) =~= Seq::empty());
        assert(items@ =~= Seq::<FlatListItem>::empty());
        while r < self.repos.len()
            invariant
                r <= self.repos.len(),
                items@ == flat_rows(
                    repos_view(self.repos@).take(r as int),
                    self.selected_repo_idx,
                    self.selected_worktree_idx,
                ),
            decreases self.repos.len() - r,
        {
            let repo: &Repository = &self.repos[r];
            let ghost before = items@;
            let ghost rows = repo_rows(
                r as nat,
                repo.worktrees@.len(),
                repo.is_expanded,
                self.selected_repo_idx,
                self.selected_worktree_idx,
            );
            items.push(FlatListItem::Repo { idx: r, is_selected: r == self.selected_repo_idx });
            if repo.is_expanded {
                let mut w: usize = 0;
                assert(items@ =~= before + rows.take(1));
                while w < repo.worktrees.len()
                    invariant
                        w <= repo.worktrees.len(),
                        repo.is_expanded,
                        rows == repo_rows(
                            r as nat,
                            repo.worktrees@.len(),
                            repo.is_expanded,
                            self.selected_repo_idx,
                            self.selected_worktree_idx,
                        ),
                        items@ == before + rows.take(w + 1),
                    decreases repo.worktrees.len() - w,
                {
                    items.push(
                        FlatListItem::Worktree {
                            repo_idx: r,
                            worktree_idx: w,
                            is_selected: r == self.selected_repo_idx && w
                                == self.selected_worktree_idx,
                        },
                    );
                    assert(items@ =~= before + rows.take(w + 2));
                    w += 1;
                }
                assert(rows.take(w + 1) =~= rows);
            } else {
                assert(items@ =~= before + rows);
            }
            assert(repos_view(self.repos@).take(r + 1).drop_last() =~= repos_view(self.repos@).take(r as int));
            r += 1;
        }
        assert(repos_view(self.repos@).take(r as int) =~= repos_view(self.repos@));
        items
    }

    /// The row of the selected worktree, or 0 when it is not shown.
    pub fn selected_flat_idx(&self) -> (i: usize)
        ensures
            i as int == self@.current_row(),
    {
        let items = self.flat_list_items();
        let mut i: usize = 0;
        while i < items.len()
            invariant
                i <= items.len(),
                items@ == self@.rows(),
                row_of_from(items@, 0, self.selected_repo_idx, self.selected_worktree_idx)
                    == row_of_from(
                    items@,
                    i as int,
                    self.selected_repo_idx,
                    self.selected_worktree_idx,
                ),
            decreases items.len() - i,
        {
            if let FlatListItem::Worktree { repo_idx, worktree_idx, .. } = items[i] {
                if repo_idx == self.selected_repo_idx && worktree_idx
                    == self.selected_worktree_idx {
                    return i;
                }
            }
            i += 1;
        }
        0
    }

    /// Selects the worktree of the given row.
    fn select_row(&mut self, items: &Vec<FlatListItem>, i: usize)
        requires
            i < items.len(),
        ensures
            match items@[i as int] {
                FlatListItem::Worktree { repo_idx, worktree_idx, .. } => *final(self)
                    == (AppState {
                    selected_repo_idx: repo_idx,
                    selected_worktree_idx: worktree_idx,
                    ..*old(self)
                }),
                _ => *final(self) == *old(self),
            },
    {
        if let FlatListItem::Worktree { repo_idx, worktree_idx, .. } = items[i] {
            self.selected_repo_idx = repo_idx;
            self.selected_worktree_idx = worktree_idx;
        }
    }

    /// Selects the next worktree in the list, wrapping around at the end.
    pub fn move_selection_down(&mut self)
        ensures
            final(self)@ == old(self)@.moved_down(),
            final(self).repos == old(self).repos,
    {
        let items = self.flat_list_items();
        let current: usize = self.selected_flat_idx();
        let mut i: usize = current;
        if i < items.len() {
            i += 1;
        }
        while i < items.len()
            invariant
                i <= items.len(),
                current < items.len() ==> current < i,
                items@ == self@.rows(),
                *self == *old(self),
                current as int == old(self)@.current_row(),
                next_worktree_row(items@, current + 1) == next_worktree_row(items@, i as int),
            decreases items.len() - i,
        {
            if let FlatListItem::Worktree { .. } = items[i] {
                self.select_row(&items, i);
                return ;
            }
            i += 1;
        }
        let mut k: usize = 0;
        while k < items.len()
            invariant
                k <= items.len(),
                items@ == self@.rows(),
                *self == *old(self),
                current as int == old(self)@.current_row(),
                next_worktree_row(items@, current + 1) == items@.len(),
                next_worktree_row(items@, 0) == next_worktree_row(items@, k as int),
            decreases items.len() - k,
        {
            if let FlatListItem::Worktree { .. } = items[k] {
                self.select_row(&items, k);
                return ;
            }
            k += 1;
        }
    }

    /// Selects the previous worktree in the list, wrapping around at the start.
    pub fn move_selection_up(&mut self)
        ensures
            final(self)@ == old(self)@.moved_up(),
            final(self).repos == old(self).repos,
    {
        let items = self.flat_list_items();
        let current: usize = self.selected_flat_idx();
        proof {
            selected_row_bound(items@, self.selected_repo_idx, self.selected_worktree_idx);
        }
        let mut i: usize = current;
        while i > 0
            invariant
                i <= current,
                current <= items.len(),
                items@ == self@.rows(),
                *self == *old(self),
                current as int == old(self)@.current_row(),
                previous_worktree_row(items@, current as int) == previous_worktree_row(
                    items@,
                    i as int,
                ),
            decreases i,
        {
            i -= 1;
            if let FlatListItem::Worktree { .. } = items[i] {
                self.select_row(&items, i);
                return ;
            }
        }
        let mut k: usize = items.len();
        while k > 0
            invariant
                k <= items.len(),
                items@ == self@.rows(),
                *self == *old(self),
                current as int == old(self)@.current_row(),
                previous_worktree_row(items@, current as int) == -1,
                previous_worktree_row(items@, items@.len() as int) == previous_worktree_row(
                    items@,
                    k as int,
                ),
            decreases k,
        {
            k -= 1;
            if let FlatListItem::Worktree { .. } = items[k] {
                self.select_row(&items, k);
                return ;
            }
        }
    }
}

/// The selected row is a row, unless there are none.
proof fn selected_row_bound(rows: Seq<FlatListItem>, r: usize, w: usize)
    ensures
        0 <= selected_row(rows, r, w),
        rows.len() > 0 ==> selected_row(rows, r, w) < rows.len(),
        rows.len() == 0 ==> selected_row(rows, r, w) == 0,
{
    row_of_from_bound(rows, 0, r, w);
}

/// A search finds a row at or after where it starts.
proof fn row_of_from_bound(rows: Seq<FlatListItem>, from: int, r: usize, w: usize)
    requires
        0 <= from <= rows.len(),
    ensures
        from <= row_of_from(rows, from, r, w) <= rows.len(),
    decreases rows.len() - from,
{
    if from < rows.len() && !is_row_of(rows[from], r, w) {
        row_of_from_bound(rows, from + 1, r, w);
    }
}

// ---------------------------------------------------------------------------
// Repositories and dialogs
// ---------------------------------------------------------------------------

/// The name to show for a repository: the configured name, else the last
/// segment of its path, else the path, as text.
pub open spec fn display_name_of(config: RepoConfigView) -> Seq<char> {
    match config.name {
        Some(name) => name,
        None => match paths::file_name_of(config.path) {
            Some(name) => bytes::text_of(name),
            None => bytes::text_of(config.path),
        },
    }
}

/// A repository of which nothing is known yet.
pub open spec fn empty_repository(config: RepoConfigView) -> RepositoryView {
    RepositoryView {
        config,
        display_name: display_name_of(config),
        worktrees: Seq::empty(),
        is_expanded: true,
        backend: VcsBackend::Git,
    }
}

impl Repository {
    /// A repository of which nothing is known yet.
    pub fn new(config: RepoConfig) -> (r: Self)
        ensures
            r@ == empty_repository(config@),
            r.config == config,
    {
        let display_name: String = match &config.name {
            Some(name) => name.clone(),
            None => match paths::file_name(&config.path) {
                Some(name) => name.to_text(),
                None => config.path.to_text(),
            },
        };
        let r = Repository {
            config,
            display_name,
            worktrees: Vec::new(),
            is_expanded: true,
            backend: VcsBackend::Git,
        };
        assert(r@.worktrees =~= Seq::empty());
        r
    }
}

impl NewWorktreeDialog {
    /// An empty form for a new worktree of the repository.
    pub fn new(repo_idx: usize, backend: VcsBackend) -> (r: Self)
        ensures
            r@ == new_worktree_form(repo_idx, backend),
    {
        NewWorktreeDialog {
            repo_idx,
            backend,
            branch_name: String::new(),
            cursor_pos: 0,
            error: None,
            is_creating: false,
        }
    }
}

/// An empty form for a new worktree of the repository.
pub open spec fn new_worktree_form(repo_idx: usize, backend: VcsBackend) -> NewWorktreeDialogView {
    NewWorktreeDialogView {
        repo_idx,
        backend,
        branch_name: Seq::empty(),
        cursor_pos: 0,
        error: None,
        is_creating: false,
    }
}

/// An empty form for a repository to track.
pub open spec fn add_repo_form() -> AddRepoDialogView {
    AddRepoDialogView { path_input: Seq::empty(), cursor_pos: 0, error: None, is_adding: false }
}

/// The byte of a tilde.
pub const TILDE: u8 = 0x7e;

/// The path that the input stands for: a leading `~` is the home directory, or
/// the root where there is none, and what follows it lies below.
pub open spec fn expand_home(input: Seq<char>, home: UserDirView) -> Seq<u8> {
    let typed = utf8::encode_utf8(input);
    if typed.len() > 0 && typed[0] == TILDE {
        let rest = paths::unrooted(typed.skip(1));
        match home {
            UserDirView::At(h) => paths::join_of(h, rest),
            UserDirView::Missing => paths::join_of(seq![paths::SLASH], rest),
        }
    } else {
        typed
    }
}

/// `dirs::home_dir` gives the home directory of the user, from the environment
/// or the user database; nothing is promised of it. Its path is handed on as
/// the bytes that it consists of.
#[verifier::external_body]
pub(crate) fn home_dir() -> (r: UserDir) {
    match dirs::home_dir() {
        Some(p) => UserDir::At(FilePath { bytes: p.into_os_string().into_encoded_bytes() }),
        None => UserDir::Missing,
    }
}

/// Whether the directory is what the system answers when it is asked for the
/// user's home directory.
pub closed spec fn is_home(dir: UserDirView) -> bool {
    exists|d: UserDir| #[trigger] call_ensures(home_dir, (), d) && d@ == dir
}

/// Asks the system for the user's home directory.
pub(crate) fn find_home() -> (r: UserDir)
    ensures
        is_home(r@),
{
    let r = looked_up(home_dir);
    assert(call_ensures(home_dir, (), r));
    r
}

impl AddRepoDialog {
    /// An empty form for a repository to track.
    pub fn new() -> (r: Self)
        ensures
            r@ == add_repo_form(),
    {
        AddRepoDialog { path_input: String::new(), cursor_pos: 0, error: None, is_adding: false }
    }

    /// The path that the input stands for, with a leading `~` expanded to the
    /// user's home directory.
    pub fn expanded_path(&self) -> (r: FilePath)
        ensures
            exists|home: UserDirView| #[trigger]
                is_home(home) && r@ == expand_home(self.path_input@, home),
    {
        let home = find_home();
        let r = self.expanded_path_in(&home);
        assert(r@ == expand_home(self.path_input@, home@));
        r
    }

    /// The path that the input stands for, where `home` is the home directory.
    pub fn expanded_path_in(&self, home: &UserDir) -> (r: FilePath)
        ensures
            r@ == expand_home(self.path_input@, home@),
    {
        let typed = FilePath::from_text(self.path_input.as_str());
        let v: &Vec<u8> = &typed.bytes;
        if v.len() == 0 || v[0] != TILDE {
            return typed;
        }
        let mut i: usize = 1;
        while i < v.len() && v[i] == paths::SLASH
            invariant
                1 <= i <= v.len(),
                paths::unrooted(v@.skip(1)) == paths::unrooted(v@.skip(i as int)),
            decreases v.len() - i,
        {
            assert(v@.skip(i as int).drop_first() =~= v@.skip(i + 1));
            i += 1;
        }
        assert(v@.skip(i as int) =~= v@.subrange(i as int, v@.len() as int));
        let rest = FilePath { bytes: bytes_of_range(v, i, v.len()) };
        match home {
            UserDir::At(h) => paths::join(h, &rest),
            UserDir::Missing => {
                let root = FilePath { bytes: vec![paths::SLASH] };
                assert(root@ =~= seq![paths::SLASH]);
                paths::join(&root, &rest)
            },
        }
    }
}

/// The bytes of a text that starts with an ASCII character.
proof fn ascii_start(first: char, rest: Seq<char>)
    requires
        first <= '\u{7f}',
    ensures
        utf8::encode_utf8(seq![first] + rest) == seq![first as u8] + utf8::encode_utf8(rest),
{
    let one = seq![first];
    edit::encode_add(one, rest);
    utf8::is_ascii_chars_encode_utf8(one);
    assert(one[0] == first);
    assert(utf8::encode_utf8(one) =~= seq![first as u8]);
}

/// Only the first `~` stands for the home directory, and what follows it lies
/// below: the segments of the path are those of the home directory and then
/// those behind the `~`, whatever they are.
pub proof fn expansion_stays_below_home(rest: Seq<char>, home: Seq<u8>)
    ensures
        paths::segments(expand_home(seq!['~'] + rest, UserDirView::At(home))) == paths::segments(
            home,
        ) + paths::segments(utf8::encode_utf8(rest)),
{
    let below = utf8::encode_utf8(rest);
    ascii_start('~', rest);
    assert(utf8::encode_utf8(seq!['~'] + rest).skip(1) =~= below);
    paths::unrooted_keeps_segments(below);
    paths::join_appends_segments(home, paths::unrooted(below));
}

/// A path behind `~/` is joined to the home directory as it is.
pub proof fn expansion_joins_what_follows(rest: Seq<char>, home: Seq<u8>)
    requires
        !paths::is_rooted(utf8::encode_utf8(rest)),
    ensures
        expand_home("~/"@ + rest, UserDirView::At(home)) == paths::join_of(
            home,
            utf8::encode_utf8(rest),
        ),
{
    reveal_strlit("~/");
    let below = utf8::encode_utf8(rest);
    assert("~/"@ + rest =~= seq!['~'] + (seq!['/'] + rest));
    ascii_start('~', seq!['/'] + rest);
    ascii_start('/', rest);
    let typed = utf8::encode_utf8("~/"@ + rest);
    assert(typed.skip(1) =~= seq![paths::SLASH] + below);
    assert(typed.skip(1).drop_first() =~= below);
    assert(paths::unrooted(below) == below);
}

/// An input without a leading `~` is taken as it is, whatever the home
/// directory.
pub proof fn other_input_is_taken_as_it_is(input: Seq<char>, home: UserDirView)
    requires
        input.len() == 0 || input[0] != '~',
    ensures
        expand_home(input, home) == utf8::encode_utf8(input),
{
    if input.len() > 0 {
        let typed = utf8::encode_utf8(input);
        utf8::encode_utf8_first_scalar(input);
        if typed[0] == TILDE {
            assert(TILDE & 0x80 == 0 && (TILDE & 0x7f) as u32 == 0x7e) by (bit_vector);
            assert(input[0] as u32 == '~' as u32);
            utf8::char_u32_cast(input[0], 0x7e);
            utf8::char_u32_cast('~', 0x7e);
        }
    }
}

/// A repository is shown under its configured name, else under the name of its
/// directory.
pub proof fn repositories_are_shown_by_name(dir: Seq<u8>, name: Seq<u8>, given: Option<Seq<char>>)
    requires
        paths::is_segment(name),
        !paths::leads_up(name),
        forall|i: int| 0 <= i < name.len() ==> #[trigger] name[i] != paths::SLASH,
    ensures
        ({
            let config = RepoConfigView { path: paths::join_of(dir, name), name: given };
            let r = empty_repository(config);
            &&& r.config == config
            &&& given matches Some(n) ==> r.display_name == n
            &&& given is None ==> r.display_name == bytes::text_of(name)
            &&& r.worktrees.len() == 0
            &&& r.is_expanded
            &&& r.backend == VcsBackend::Git
        }),
{
    paths::joined_names_are_found_again(dir, name);
}

/// Without a home directory, `~` is the root.
pub proof fn without_a_home_the_root_is_meant(rest: Seq<char>)
    ensures
        paths::segments(expand_home(seq!['~'] + rest, UserDirView::Missing)) == paths::segments(
            utf8::encode_utf8(rest),
        ),
        paths::is_rooted(expand_home(seq!['~'] + rest, UserDirView::Missing)),
{
    let below = utf8::encode_utf8(rest);
    let root = seq![paths::SLASH];
    ascii_start('~', rest);
    assert(utf8::encode_utf8(seq!['~'] + rest).skip(1) =~= below);
    paths::unrooted_keeps_segments(below);
    paths::join_appends_segments(root, paths::unrooted(below));
    paths::unrooted_keeps_segments(root);
    assert(root.drop_first() =~= Seq::empty());
    assert(paths::unrooted(Seq::empty()) == Seq::<u8>::empty());
    assert(paths::unrooted(root) == paths::unrooted(root.drop_first()));
    assert(paths::segments(Seq::empty()) =~= Seq::empty()) by {
        text::split_on_plain(Seq::<u8>::empty(), paths::SLASH);
        let one = seq![Seq::<u8>::empty()];
        assert(one.drop_last() =~= Seq::empty());
        assert(paths::keep_segments(one.drop_last()) =~= Seq::empty());
    }
    assert(Seq::<Seq<u8>>::empty() + paths::segments(below) =~= paths::segments(below));
}

/// The selected worktree is the one at the selected place of the selected
/// repository, if there is one.
pub proof fn the_selection_points_at_its_worktree(s: AppStateView)
    ensures
        s.selected() is Some <==> s.selected_repo_idx < s.repos.len() && s.selected_worktree_idx
            < s.repos[s.selected_repo_idx as int].worktrees.len(),
        s.selected() matches Some(w) ==> w
            == s.repos[s.selected_repo_idx as int].worktrees[s.selected_worktree_idx as int]
            && s.selected_path() == Some(w.path),
        s.selected() is None ==> s.selected_path() is None,
{
}

/// A repository without a name whose path has no last segment is shown as its
/// path.
pub proof fn other_repositories_are_shown_by_path(path: Seq<u8>)
    requires
        paths::file_name_of(path) is None,
    ensures
        display_name_of(RepoConfigView { path, name: None }) == bytes::text_of(path),
{
}

} // verus!
