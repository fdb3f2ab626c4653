//! Pull requests on GitHub.
pub mod pr;
