//! The application: its data, what it asks the outside world to do, and how it
//! reacts to events.
use vstd::prelude::*;

use crate::cache;
use crate::cache::{snapshot, Cache, CachedRepoView};
use crate::config::{Config, ConfigView, RepoConfig, RepoConfigView};
use crate::events::handler;
use crate::events::{AppEvent, AppEventView};
use crate::github::pr;
use crate::github::pr::{patch_badges, PrInfo, PrInfoView};
use crate::paths;
use crate::paths::{FilePath, UserDir, UserDirView};
use crate::pty::{PtyManager, PtyManagerView};
use crate::state::types;
use crate::state::types::{
    AddRepoDialogView, AppState, AppStateView, DeleteWorktreeDialogView, NewWorktreeDialogView,
    Repository, RepositoryView,
};
use crate::text;
use crate::vcs::VcsBackend;

verus! {

/// The application.
#[derive(Debug)]
pub struct App {
    pub state: AppState,
    pub pty_manager: PtyManager,
    /// Columns and rows of the terminal that the application runs in.
    pub terminal_size: (u16, u16),
    pub config: Config,
    /// Columns and rows of the terminal panel in the last frame; (0, 0) before
    /// the first.
    pub last_synced_inner: (u16, u16),
}

#[verifier::ext_equal]
pub struct AppView {
    pub state: AppStateView,
    pub pty_manager: PtyManagerView,
    pub terminal_size: (u16, u16),
    pub config: ConfigView,
    pub last_synced_inner: (u16, u16),
}

impl View for App {
    type V = AppView;

    open spec fn view(&self) -> AppView {
        AppView {
            state: self.state@,
            pty_manager: self.pty_manager@,
            terminal_size: self.terminal_size,
            config: self.config@,
            last_synced_inner: self.last_synced_inner,
        }
    }
}

/// What the shell of the selected worktree shows, where it has a session.
#[derive(Debug)]
pub struct TerminalSnapshot {
    /// The mode of the terminal; 0 where there is none.
    pub mode: u32,
    /// The text that is selected in it.
    pub selection: Option<String>,
}

#[verifier::ext_equal]
pub struct TerminalSnapshotView {
    pub mode: u32,
    pub selection: Option<Seq<char>>,
}

impl View for TerminalSnapshot {
    type V = TerminalSnapshotView;

    open spec fn view(&self) -> TerminalSnapshotView {
        TerminalSnapshotView { mode: self.mode, selection: text::opt_view(self.selection) }
    }
}

// ---------------------------------------------------------------------------
// Effects
// ---------------------------------------------------------------------------

/// Something for the outside world to do.
#[derive(Debug)]
pub enum Effect {
    /// Give every session this size.
    ResizeAll { rows: u16, cols: u16 },
    /// Send bytes to the session's program.
    WriteInput { path: FilePath, bytes: Vec<u8> },
    /// Show the end of the session's output.
    ResetScroll { path: FilePath },
    ScrollUp { path: FilePath, lines: usize },
    ScrollDown { path: FilePath, lines: usize },
    ClearSelection { path: FilePath },
    /// Start selecting text at the cell of the terminal panel.
    StartSelection { path: FilePath, row: u16, col: u16 },
    /// Extend the selection, if there is one, to the cell.
    UpdateSelection { path: FilePath, row: u16, col: u16 },
    CopyToClipboard { content: String },
    /// Start a session where there is none, and report back; `select` is to be
    /// handed back.
    OpenSession { path: FilePath, rows: u16, cols: u16, select: Option<(u16, u16)> },
    /// End the session, if there is one.
    RemoveSession { path: FilePath },
    /// Refresh every configured repository.
    StartRefresh,
    SaveCache(Cache),
    SaveConfig,
    /// Find out whether the path can be tracked.
    ValidateRepo { path: FilePath },
    CreateWorktree { repo_path: FilePath, name: String },
    RemoveWorktree {
        backend: VcsBackend,
        repo_path: FilePath,
        worktree_path: FilePath,
        workspace_name: String,
    },
    OpenEditor { path: FilePath },
}

#[verifier::ext_equal]
pub enum EffectView {
    ResizeAll { rows: u16, cols: u16 },
    WriteInput { path: Seq<u8>, bytes: Seq<u8> },
    ResetScroll { path: Seq<u8> },
    ScrollUp { path: Seq<u8>, lines: usize },
    ScrollDown { path: Seq<u8>, lines: usize },
    ClearSelection { path: Seq<u8> },
    StartSelection { path: Seq<u8>, row: u16, col: u16 },
    UpdateSelection { path: Seq<u8>, row: u16, col: u16 },
    CopyToClipboard { content: Seq<char> },
    OpenSession { path: Seq<u8>, rows: u16, cols: u16, select: Option<(u16, u16)> },
    RemoveSession { path: Seq<u8> },
    StartRefresh,
    SaveCache(Seq<CachedRepoView>),
    SaveConfig,
    ValidateRepo { path: Seq<u8> },
    CreateWorktree { repo_path: Seq<u8>, name: Seq<char> },
    RemoveWorktree {
        backend: VcsBackend,
        repo_path: Seq<u8>,
        worktree_path: Seq<u8>,
        workspace_name: Seq<char>,
    },
    OpenEditor { path: Seq<u8> },
}

impl View for Effect {
    type V = EffectView;

    open spec fn view(&self) -> EffectView {
        match *self {
            Effect::ResizeAll { rows, cols } => EffectView::ResizeAll { rows, cols },
            Effect::WriteInput { path, bytes } => EffectView::WriteInput {
                path: path@,
                bytes: bytes@,
            },
            Effect::ResetScroll { path } => EffectView::ResetScroll { path: path@ },
            Effect::ScrollUp { path, lines } => EffectView::ScrollUp { path: path@, lines },
            Effect::ScrollDown { path, lines } => EffectView::ScrollDown { path: path@, lines },
            Effect::ClearSelection { path } => EffectView::ClearSelection { path: path@ },
            Effect::StartSelection { path, row, col } => EffectView::StartSelection {
                path: path@,
                row,
                col,
            },
            Effect::UpdateSelection { path, row, col } => EffectView::UpdateSelection {
                path: path@,
                row,
                col,
            },
            Effect::CopyToClipboard { content } => EffectView::CopyToClipboard {
                content: content@,
            },
            Effect::OpenSession { path, rows, cols, select } => EffectView::OpenSession {
                path: path@,
                rows,
                cols,
                select,
            },
            Effect::RemoveSession { path } => EffectView::RemoveSession { path: path@ },
            Effect::StartRefresh => EffectView::StartRefresh,
            Effect::SaveCache(c) => EffectView::SaveCache(c@),
            Effect::SaveConfig => EffectView::SaveConfig,
            Effect::ValidateRepo { path } => EffectView::ValidateRepo { path: path@ },
            Effect::CreateWorktree { repo_path, name } => EffectView::CreateWorktree {
                repo_path: repo_path@,
                name: name@,
            },
            Effect::RemoveWorktree { backend, repo_path, worktree_path, workspace_name } => {
                EffectView::RemoveWorktree {
                    backend,
                    repo_path: repo_path@,
                    worktree_path: worktree_path@,
                    workspace_name: workspace_name@,
                }
            },
            Effect::OpenEditor { path } => EffectView::OpenEditor { path: path@ },
        }
    }
}

/// The effects of a list.
pub open spec fn effects_view(v: Seq<Effect>) -> Seq<EffectView> {
    v.map_values(|e: Effect| e@)
}

/// No effects yet.
pub fn no_effects() -> (r: Vec<Effect>)
    ensures
        effects_view(r@) == Seq::<EffectView>::empty(),
{
    let r: Vec<Effect> = Vec::new();
    assert(effects_view(r@) =~= Seq::<EffectView>::empty());
    r
}

/// Adds an effect behind the others.
pub fn push_effect(effects: &mut Vec<Effect>, effect: Effect)
    ensures
        effects_view(final(effects)@) == effects_view(old(effects)@).push(effect@),
{
    let ghost before = effects_view(effects@);
    let ghost this = effect@;
    effects.push(effect);
    assert(effects_view(effects@) =~= before.push(this));
}

/// A single effect.
pub fn one_effect(effect: Effect) -> (r: Vec<Effect>)
    ensures
        effects_view(r@) == seq![effect@],
{
    let ghost this = effect@;
    let mut r = no_effects();
    push_effect(&mut r, effect);
    assert(effects_view(r@) =~= seq![this]);
    r
}

/// The effects with one before them.
fn behind(first: Effect, effects: Vec<Effect>) -> (r: Vec<Effect>)
    ensures
        effects_view(r@) == seq![first@] + effects_view(effects@),
{
    let ghost all = seq![first@] + effects_view(effects@);
    let mut r = effects;
    r.insert(0, first);
    assert(effects_view(r@) =~= all);
    r
}

// ---------------------------------------------------------------------------
// Parts of the model
// ---------------------------------------------------------------------------

/// The first repository with the path, or the number of repositories.
pub open spec fn repo_index(repos: Seq<RepositoryView>, path: Seq<u8>) -> int
    decreases repos.len(),
{
    if repos.len() == 0 || paths::same_path(repos[0].config.path, path) {
        0
    } else {
        1 + repo_index(repos.drop_first(), path)
    }
}

/// Whether a repository with the path is tracked.
pub open spec fn is_tracked(repos: Seq<RepositoryView>, path: Seq<u8>) -> bool {
    repo_index(repos, path) < repos.len()
}

/// `repo_index` points at the first repository with the path, or past the end.
pub proof fn repo_index_facts(repos: Seq<RepositoryView>, path: Seq<u8>)
    ensures
        0 <= repo_index(repos, path) <= repos.len(),
        repo_index(repos, path) < repos.len() ==> paths::same_path(
            repos[repo_index(repos, path)].config.path,
            path,
        ),
        forall|i: int|
            0 <= i < repo_index(repos, path) ==> !paths::same_path(
                (#[trigger] repos[i]).config.path,
                path,
            ),
    decreases repos.len(),
{
    if repos.len() > 0 && !paths::same_path(repos[0].config.path, path) {
        let rest = repos.drop_first();
        repo_index_facts(rest, path);
        assert forall|i: int| 0 <= i < repo_index(repos, path) implies !paths::same_path(
            (#[trigger] repos[i]).config.path,
            path,
        ) by {
            if i > 0 {
                assert(repos[i] == rest[i - 1]);
            }
        }
    }
}

/// A path is tracked exactly where some repository has it.
pub proof fn tracked_means_some_repository(repos: Seq<RepositoryView>, path: Seq<u8>)
    ensures
        is_tracked(repos, path) <==> exists|i: int|
            0 <= i < repos.len() && paths::same_path((#[trigger] repos[i]).config.path, path),
{
    repo_index_facts(repos, path);
}

/// The repositories with `repo` in place of the one with its path, as expanded
/// as that one was; at the end where there is none.
pub open spec fn with_loaded(repos: Seq<RepositoryView>, repo: RepositoryView) -> Seq<
    RepositoryView,
> {
    let i = repo_index(repos, repo.config.path);
    if i < repos.len() {
        repos.update(i, RepositoryView { is_expanded: repos[i].is_expanded, ..repo })
    } else {
        repos.push(repo)
    }
}

/// The repositories with the pull requests of the one with the path.
pub open spec fn with_prs(repos: Seq<RepositoryView>, path: Seq<u8>, prs: Seq<PrInfoView>) -> Seq<
    RepositoryView,
> {
    let i = repo_index(repos, path);
    if i < repos.len() {
        repos.update(
            i,
            RepositoryView { worktrees: pr::with_badges(repos[i].worktrees, prs), ..repos[i] },
        )
    } else {
        repos
    }
}

/// The smaller of a selection and the last of `n` places; 0 where there are
/// none.
pub open spec fn clamped_index(i: usize, n: nat) -> usize {
    if n == 0 {
        0
    } else if i < n {
        i
    } else {
        (n - 1) as usize
    }
}

impl AppStateView {
    /// The state with the selection moved to the nearest worktree that exists.
    pub open spec fn clamped(self) -> AppStateView {
        let r = clamped_index(self.selected_repo_idx, self.repos.len());
        AppStateView {
            selected_repo_idx: r,
            selected_worktree_idx: if self.repos.len() == 0 {
                0
            } else {
                clamped_index(
                    self.selected_worktree_idx,
                    self.repos[r as int].worktrees.len(),
                )
            },
            ..self
        }
    }
}

/// The application and the effects after something happened.
pub type Outcome = (AppView, Seq<EffectView>);

impl AppView {
    /// The application with another state.
    pub open spec fn with_state(self, state: AppStateView) -> AppView {
        AppView { state, ..self }
    }

    /// The application with other sessions.
    pub open spec fn with_sessions(self, pty_manager: PtyManagerView) -> AppView {
        AppView { pty_manager, ..self }
    }

    /// The application after a refresh was asked for: it starts one unless one
    /// is running.
    pub open spec fn refresh_triggered(self) -> Outcome {
        if self.state.is_refreshing {
            (self, Seq::empty())
        } else {
            (
                self.with_state(AppStateView { is_refreshing: true, ..self.state }),
                seq![EffectView::StartRefresh],
            )
        }
    }

    /// The application after a frame in which the terminal panel had the given
    /// columns and rows.
    pub open spec fn sizes_synced(self, inner: (u16, u16)) -> Outcome {
        if inner.0 == 0 || inner.1 == 0 || inner == self.last_synced_inner {
            (self, Seq::empty())
        } else {
            (
                AppView { last_synced_inner: inner, ..self },
                seq![EffectView::ResizeAll { rows: inner.1, cols: inner.0 }],
            )
        }
    }

    /// The application at startup.
    pub open spec fn initial(state: AppStateView, config: ConfigView) -> AppView {
        AppView {
            state,
            pty_manager: PtyManagerView { shell: config.shell, sessions: Seq::empty() },
            terminal_size: (80, 24),
            config,
            last_synced_inner: (0, 0),
        }
    }

    /// The application after tracking a repository at the path.
    pub open spec fn repo_added(self, path: Seq<u8>) -> AppView {
        let config = RepoConfigView { path, name: None };
        AppView {
            config: ConfigView { repos: self.config.repos.push(config), ..self.config },
            state: AppStateView {
                add_repo_dialog: None,
                repos: self.state.repos.push(types::empty_repository(config)),
                ..self.state
            },
            ..self
        }
    }

    /// The application after the event, whether it needs a new frame, and the
    /// effects. `home` is the user's home directory.
    pub open spec fn processed(
        self,
        event: AppEventView,
        terminal: TerminalSnapshotView,
        home: UserDirView,
    ) -> (Outcome, bool) {
        match event {
            AppEventView::Crossterm(e) => (handler::event_handled(self, e, terminal, home), true),
            AppEventView::PtyOutput { worktree_path } => (
                (self, Seq::empty()),
                match self.state.selected_path() {
                    Some(active) => paths::same_path(active, worktree_path),
                    None => false,
                },
            ),
            AppEventView::RepoLoaded(repo) => (
                (
                    self.with_state(
                        (AppStateView {
                            repos: with_loaded(self.state.repos, repo),
                            ..self.state
                        }).clamped(),
                    ),
                    Seq::empty(),
                ),
                true,
            ),
            AppEventView::PrsFetched { repo_path, prs } => (
                (
                    self.with_state(
                        AppStateView {
                            repos: with_prs(self.state.repos, repo_path, prs),
                            ..self.state
                        },
                    ),
                    Seq::empty(),
                ),
                true,
            ),
            AppEventView::RefreshDone => (
                (
                    self.with_state(AppStateView { is_refreshing: false, ..self.state }),
                    seq![EffectView::SaveCache(cache::stored_repos(self.state.repos))],
                ),
                true,
            ),
            AppEventView::RefreshError(_) => ((self, Seq::empty()), true),
            AppEventView::WorktreeCreated { .. } => (
                self.with_state(
                    AppStateView { new_worktree_dialog: None, ..self.state },
                ).refresh_triggered(),
                true,
            ),
            AppEventView::WorktreeCreateError(e) => (
                (
                    self.with_state(
                        AppStateView {
                            new_worktree_dialog: match self.state.new_worktree_dialog {
                                Some(d) => Some(
                                    NewWorktreeDialogView {
                                        is_creating: false,
                                        error: Some(e),
                                        ..d
                                    },
                                ),
                                None => None,
                            },
                            ..self.state
                        },
                    ),
                    Seq::empty(),
                ),
                true,
            ),
            AppEventView::WorktreeDeleted { worktree_path, .. } => {
                let (next, effects) = self.with_state(
                    AppStateView { delete_worktree_dialog: None, ..self.state },
                ).with_sessions(
                    self.pty_manager.without_session(worktree_path),
                ).refresh_triggered();
                (
                    (next, seq![EffectView::RemoveSession { path: worktree_path }] + effects),
                    true,
                )
            },
            AppEventView::WorktreeDeleteError(e) => (
                (
                    self.with_state(
                        AppStateView {
                            delete_worktree_dialog: match self.state.delete_worktree_dialog {
                                Some(d) => Some(
                                    DeleteWorktreeDialogView {
                                        is_deleting: false,
                                        error: Some(e),
                                        ..d
                                    },
                                ),
                                None => None,
                            },
                            ..self.state
                        },
                    ),
                    Seq::empty(),
                ),
                true,
            ),
            AppEventView::RepoAdded(path) => {
                let (next, effects) = self.repo_added(path).refresh_triggered();
                ((next, seq![EffectView::SaveConfig] + effects), true)
            },
            AppEventView::RepoAddError(e) => (
                (
                    self.with_state(
                        AppStateView {
                            add_repo_dialog: match self.state.add_repo_dialog {
                                Some(d) => Some(
                                    AddRepoDialogView { is_adding: false, error: Some(e), ..d },
                                ),
                                None => None,
                            },
                            ..self.state
                        },
                    ),
                    Seq::empty(),
                ),
                true,
            ),
            AppEventView::Tick => ((self, Seq::empty()), self.pty_manager.sessions.len() > 0),
            AppEventView::RefreshTick => (self.refresh_triggered(), false),
            AppEventView::Quit => (
                (
                    self.with_state(AppStateView { should_quit: true, ..self.state }),
                    Seq::empty(),
                ),
                false,
            ),
        }
    }
}

// ---------------------------------------------------------------------------
// The application
// ---------------------------------------------------------------------------

impl App {
    /// The application at startup. Its size is a guess until the terminal is
    /// asked.
    pub fn new(state: AppState, config: Config) -> (r: Self)
        ensures
            r@ == AppView::initial(state@, config@),
    {
        let shell: String = config.shell.clone();
        App {
            state,
            pty_manager: PtyManager::new(shell),
            terminal_size: (80, 24),
            config,
            last_synced_inner: (0, 0),
        }
    }

    /// Where the repository with the path is.
    pub fn repo_position(&self, path: &FilePath) -> (r: Option<usize>)
        ensures
            match r {
                Some(i) => i as int == repo_index(self@.state.repos, path@) && i
                    < self.state.repos.len(),
                None => !is_tracked(self@.state.repos, path@),
            },
    {
        let ghost all = self@.state.repos;
        let mut i: usize = 0;
        assert(all.skip(0) =~= all);
        while i < self.state.repos.len()
            invariant
                i <= self.state.repos.len(),
                all == self@.state.repos,
                repo_index(all, path@) == i + repo_index(all.skip(i as int), path@),
            decreases self.state.repos.len() - i,
        {
            assert(all.skip(i as int)[0] == self.state.repos@[i as int]@);
            if paths::paths_equal(&self.state.repos[i].config.path, path) {
                return Some(i);
            }
            assert(all.skip(i as int).drop_first() =~= all.skip(i + 1));
            i += 1;
        }
        None
    }

    /// Moves the selection to the nearest worktree that exists.
    pub fn clamp_selection(&mut self)
        ensures
            final(self)@ == old(self)@.with_state(old(self)@.state.clamped()),
    {
        let n: usize = self.state.repos.len();
        if n == 0 {
            self.state.selected_repo_idx = 0;
            self.state.selected_worktree_idx = 0;
            return ;
        }
        if self.state.selected_repo_idx >= n {
            self.state.selected_repo_idx = n - 1;
        }
        let count: usize = self.state.repos[self.state.selected_repo_idx].worktrees.len();
        if count == 0 {
            self.state.selected_worktree_idx = 0;
        } else if self.state.selected_worktree_idx >= count {
            self.state.selected_worktree_idx = count - 1;
        }
    }

    /// Asks for a refresh, unless one is running.
    pub fn trigger_refresh(&mut self) -> (r: Vec<Effect>)
        ensures
            (final(self)@, effects_view(r@)) == old(self)@.refresh_triggered(),
    {
        if self.state.is_refreshing {
            return no_effects();
        }
        self.state.is_refreshing = true;
        one_effect(Effect::StartRefresh)
    }

    /// Takes a repository that was loaded.
    fn take_repo(&mut self, repo: Repository)
        ensures
            final(self)@ == old(self)@.with_state(
                (AppStateView {
                    repos: with_loaded(old(self)@.state.repos, repo@),
                    ..old(self)@.state
                }).clamped(),
            ),
    {
        let ghost before = self@;
        let mut repo = repo;
        let ghost this = repo@;
        match self.repo_position(&repo.config.path) {
            Some(i) => {
                repo.is_expanded = self.state.repos[i].is_expanded;
                self.state.repos.set(i, repo);
            },
            None => {
                self.state.repos.push(repo);
            },
        }
        assert(self@.state.repos =~= with_loaded(before.state.repos, this));
        self.clamp_selection();
    }

    /// Takes the pull requests of a repository.
    fn take_prs(&mut self, repo_path: &FilePath, prs: &Vec<PrInfo>)
        ensures
            final(self)@ == old(self)@.with_state(
                AppStateView {
                    repos: with_prs(old(self)@.state.repos, repo_path@, pr::infos_view(prs@)),
                    ..old(self)@.state
                },
            ),
    {
        let ghost before = self@;
        if let Some(i) = self.repo_position(repo_path) {
            patch_badges(&mut self.state.repos[i].worktrees, prs);
        }
        assert(self@.state.repos =~= with_prs(
            before.state.repos,
            repo_path@,
            pr::infos_view(prs@),
        ));
    }

    /// Tracks a repository at the path.
    fn track(&mut self, path: FilePath)
        ensures
            final(self)@ == old(self)@.repo_added(path@),
    {
        let ghost before = self@;
        let ghost added = before.repo_added(path@);
        let config = RepoConfig { path, name: None };
        self.state.add_repo_dialog = None;
        self.config.repos.push(config.clone());
        self.state.repos.push(Repository::new(config));
        assert(self@.config.repos =~= added.config.repos);
        assert(self@.state.repos =~= added.state.repos);
    }

    /// Takes an event, where `home` is the user's home directory. Tells whether
    /// a new frame is needed, and what to do.
    pub fn process_event_in(
        &mut self,
        event: AppEvent,
        terminal: &TerminalSnapshot,
        home: &UserDir,
    ) -> (r: (bool, Vec<Effect>))
        requires
            event@ matches AppEventView::Crossterm(e) ==> handler::accepts_event(
                old(self)@.state,
                e,
            ),
        ensures
            ((final(self)@, effects_view(r.1@)), r.0) == old(self)@.processed(
                event@,
                terminal@,
                home@,
            ),
    {
        match event {
            AppEvent::Crossterm(e) => {
                let effects = handler::handle_event_in(self, e, terminal, home);
                (true, effects)
            },
            AppEvent::PtyOutput { worktree_path } => {
                let shown: bool = match self.state.selected_worktree_path() {
                    Some(active) => paths::paths_equal(active, &worktree_path),
                    None => false,
                };
                (shown, no_effects())
            },
            AppEvent::RepoLoaded(repo) => {
                self.take_repo(repo);
                (true, no_effects())
            },
            AppEvent::PrsFetched { repo_path, prs } => {
                self.take_prs(&repo_path, &prs);
                (true, no_effects())
            },
            AppEvent::RefreshDone => {
                self.state.is_refreshing = false;
                (true, one_effect(Effect::SaveCache(snapshot(&self.state.repos))))
            },
            AppEvent::RefreshError(_) => (true, no_effects()),
            AppEvent::WorktreeCreated { .. } => {
                self.state.new_worktree_dialog = None;
                (true, self.trigger_refresh())
            },
            AppEvent::WorktreeCreateError(e) => {
                if let Some(mut dialog) = self.state.new_worktree_dialog.take() {
                    dialog.is_creating = false;
                    dialog.error = Some(e);
                    self.state.new_worktree_dialog = Some(dialog);
                }
                (true, no_effects())
            },
            AppEvent::WorktreeDeleted { worktree_path, .. } => {
                self.pty_manager.remove(&worktree_path);
                self.state.delete_worktree_dialog = None;
                let refresh = self.trigger_refresh();
                let effects = behind(Effect::RemoveSession { path: worktree_path }, refresh);
                (true, effects)
            },
            AppEvent::WorktreeDeleteError(e) => {
                if let Some(mut dialog) = self.state.delete_worktree_dialog.take() {
                    dialog.is_deleting = false;
                    dialog.error = Some(e);
                    self.state.delete_worktree_dialog = Some(dialog);
                }
                (true, no_effects())
            },
            AppEvent::RepoAdded(path) => {
                self.track(path);
                let refresh = self.trigger_refresh();
                (true, behind(Effect::SaveConfig, refresh))
            },
            AppEvent::RepoAddError(e) => {
                if let Some(mut dialog) = self.state.add_repo_dialog.take() {
                    dialog.is_adding = false;
                    dialog.error = Some(e);
                    self.state.add_repo_dialog = Some(dialog);
                }
                (true, no_effects())
            },
            AppEvent::Tick => (self.pty_manager.has_any_sessions(), no_effects()),
            AppEvent::RefreshTick => (false, self.trigger_refresh()),
            AppEvent::Quit => {
                self.state.should_quit = true;
                (false, no_effects())
            },
        }
    }

    /// Takes an event. Tells whether a new frame is needed, and what to do.
    pub fn process_event(&mut self, event: AppEvent, terminal: &TerminalSnapshot) -> (r: (
        bool,
        Vec<Effect>,
    ))
        requires
            event@ matches AppEventView::Crossterm(e) ==> handler::accepts_event(
                old(self)@.state,
                e,
            ),
        ensures
            exists|home: UserDirView|
                ((final(self)@, effects_view(r.1@)), r.0) == #[trigger] old(self)@.processed(
                    event@,
                    terminal@,
                    home,
                ) && (event@ matches AppEventView::Crossterm(e) && handler::is_submission(
                    old(self)@.state,
                    e,
                ) ==> types::is_home(home)),
    {
        let ghost before = self@;
        let ghost this = event@;
        match event {
            AppEvent::Crossterm(e) => {
                let effects = handler::handle_event(self, e, terminal);
                let ghost home = choose|home: UserDirView|
                    (self@, effects_view(effects@)) == #[trigger] handler::event_handled(
                        before,
                        this->Crossterm_0,
                        terminal@,
                        home,
                    ) && (handler::is_submission(before.state, this->Crossterm_0)
                        ==> types::is_home(home));
                assert(((self@, effects_view(effects@)), true) == before.processed(
                    this,
                    terminal@,
                    home,
                ));
                (true, effects)
            },
            _ => {
                let r = self.process_event_in(event, terminal, &UserDir::Missing);
                assert(((self@, effects_view(r.1@)), r.0) == before.processed(
                    this,
                    terminal@,
                    UserDirView::Missing,
                ));
                r
            },
        }
    }

    /// Takes the columns and rows that the terminal panel had in a frame: the
    /// sessions are resized where they changed.
    pub fn sync_pty_sizes(&mut self, inner: (u16, u16)) -> (r: Vec<Effect>)
        ensures
            (final(self)@, effects_view(r@)) == old(self)@.sizes_synced(inner),
    {
        let (cols, rows): (u16, u16) = inner;
        if cols == 0 || rows == 0 || (cols == self.last_synced_inner.0 && rows
            == self.last_synced_inner.1) {
            return no_effects();
        }
        self.last_synced_inner = inner;
        one_effect(Effect::ResizeAll { rows, cols })
    }
}

} // verus!
