//! Reading git repositories.
pub mod repo;
