//! What the application reacts to.
use vstd::prelude::*;

use crate::events::input::Event;
use crate::github::pr;
use crate::github::pr::{PrInfo, PrInfoView};
use crate::paths::FilePath;
use crate::state::types::{Repository, RepositoryView};

pub mod handler;
pub mod input;

verus! {

/// Something that happened.
#[derive(Debug)]
pub enum AppEvent {
    /// The user did something in the terminal that the application runs in.
    Crossterm(Event),
    /// A terminal session printed something.
    PtyOutput { worktree_path: FilePath },
    /// The status of a single repository is ready.
    RepoLoaded(Repository),
    /// The pull requests of a repository arrived.
    PrsFetched { repo_path: FilePath, prs: Vec<PrInfo> },
    /// All repositories of a refresh have finished.
    RefreshDone,
    RefreshError(String),
    WorktreeCreated { repo_path: FilePath, worktree_path: FilePath },
    WorktreeCreateError(String),
    WorktreeDeleted { repo_path: FilePath, worktree_path: FilePath },
    WorktreeDeleteError(String),
    RepoAdded(FilePath),
    RepoAddError(String),
    /// The heartbeat, once a second, that updates idle indicators.
    Tick,
    /// The heartbeat of the refresh interval. It goes through the same guard as
    /// every other refresh, so that no two refreshes run at once.
    RefreshTick,
    Quit,
}

/// An event of the terminal, with its text as characters.
#[verifier::ext_equal]
pub enum EventView {
    FocusGained,
    FocusLost,
    Key(input::KeyEvent),
    Mouse(input::MouseEvent),
    Paste(Seq<char>),
    Resize(u16, u16),
}

impl View for Event {
    type V = EventView;

    open spec fn view(&self) -> EventView {
        match *self {
            Event::FocusGained => EventView::FocusGained,
            Event::FocusLost => EventView::FocusLost,
            Event::Key(k) => EventView::Key(k),
            Event::Mouse(m) => EventView::Mouse(m),
            Event::Paste(s) => EventView::Paste(s@),
            Event::Resize(c, r) => EventView::Resize(c, r),
        }
    }
}

/// Something that happened, with its texts as characters and its paths as bytes.
#[verifier::ext_equal]
pub enum AppEventView {
    Crossterm(EventView),
    PtyOutput { worktree_path: Seq<u8> },
    RepoLoaded(RepositoryView),
    PrsFetched { repo_path: Seq<u8>, prs: Seq<PrInfoView> },
    RefreshDone,
    RefreshError(Seq<char>),
    WorktreeCreated { repo_path: Seq<u8>, worktree_path: Seq<u8> },
    WorktreeCreateError(Seq<char>),
    WorktreeDeleted { repo_path: Seq<u8>, worktree_path: Seq<u8> },
    WorktreeDeleteError(Seq<char>),
    RepoAdded(Seq<u8>),
    RepoAddError(Seq<char>),
    Tick,
    RefreshTick,
    Quit,
}

impl View for AppEvent {
    type V = AppEventView;

    open spec fn view(&self) -> AppEventView {
        match *self {
            AppEvent::Crossterm(e) => AppEventView::Crossterm(e@),
            AppEvent::PtyOutput { worktree_path } => AppEventView::PtyOutput {
                worktree_path: worktree_path@,
            },
            AppEvent::RepoLoaded(repo) => AppEventView::RepoLoaded(repo@),
            AppEvent::PrsFetched { repo_path, prs } => AppEventView::PrsFetched {
                repo_path: repo_path@,
                prs: pr::infos_view(prs@),
            },
            AppEvent::RefreshDone => AppEventView::RefreshDone,
            AppEvent::RefreshError(e) => AppEventView::RefreshError(e@),
            AppEvent::WorktreeCreated { repo_path, worktree_path } => {
                AppEventView::WorktreeCreated {
                    repo_path: repo_path@,
                    worktree_path: worktree_path@,
                }
            },
            AppEvent::WorktreeCreateError(e) => AppEventView::WorktreeCreateError(e@),
            AppEvent::WorktreeDeleted { repo_path, worktree_path } => {
                AppEventView::WorktreeDeleted {
                    repo_path: repo_path@,
                    worktree_path: worktree_path@,
                }
            },
            AppEvent::WorktreeDeleteError(e) => AppEventView::WorktreeDeleteError(e@),
            AppEvent::RepoAdded(p) => AppEventView::RepoAdded(p@),
            AppEvent::RepoAddError(e) => AppEventView::RepoAddError(e@),
            AppEvent::Tick => AppEventView::Tick,
            AppEvent::RefreshTick => AppEventView::RefreshTick,
            AppEvent::Quit => AppEventView::Quit,
        }
    }
}

} // verus!
