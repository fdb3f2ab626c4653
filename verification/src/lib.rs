//! The core of gitopiary, a terminal browser for git worktrees and jj
//! workspaces: the application state and its transitions, input handling,
//! discovery and status of worktrees, the on-disk cache, and the text and
//! geometry of the user interface.
//!
//! Functions that need the outside world are split into the part that says what
//! to ask and the part that takes the answer. The crate itself asks the system
//! for two things only, the user's home and cache directories; for each
//! function that does so there is one that takes the directory instead.
pub mod app;
pub mod bytes;
pub mod cache;
pub mod config;
pub mod edit;
pub mod events;
pub mod git;
pub mod github;
pub mod guarantees;
pub mod jj;
pub mod keybindings;
pub mod num;
pub mod paths;
pub mod pty;
pub mod state;
pub mod text;
pub mod ui;
pub mod vcs;
