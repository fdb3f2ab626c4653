//! Application state.
pub mod refresh;
pub mod selection;
pub mod types;
