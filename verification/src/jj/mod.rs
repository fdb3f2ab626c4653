//! The jj backend.
pub mod cli;
pub mod query;
pub mod repo;
pub mod status;
pub mod worktree;
