//! Configuration that the application logic reads.
use vstd::prelude::*;

use crate::paths::FilePath;
use crate::text;

verus! {

/// A tracked repository.
#[derive(Debug)]
pub struct RepoConfig {
    /// Where the repository is.
    pub path: FilePath,
    /// The name to show, in place of the last segment of the path.
    pub name: Option<String>,
}

/// A tracked repository, with its path as bytes and its name as characters.
#[verifier::ext_equal]
pub struct RepoConfigView {
    pub path: Seq<u8>,
    pub name: Option<Seq<char>>,
}

impl View for RepoConfig {
    type V = RepoConfigView;

    open spec fn view(&self) -> RepoConfigView {
        RepoConfigView { path: self.path@, name: text::opt_view(self.name) }
    }
}

/// The tracked repositories of a list.
pub open spec fn configs_view(s: Seq<RepoConfig>) -> Seq<RepoConfigView> {
    s.map_values(|c: RepoConfig| c@)
}

impl Clone for RepoConfig {
    fn clone(&self) -> (r: Self)
        ensures
            r@ == self@,
    {
        RepoConfig {
            path: self.path.clone(),
            name: match &self.name {
                Some(n) => Some(n.clone()),
                None => None,
            },
        }
    }
}

/// The settings of the application.
#[derive(Debug, Clone)]
pub struct Config {
    /// The tracked repositories, in display order.
    pub repos: Vec<RepoConfig>,
    /// The program that terminal sessions run.
    pub shell: String,
    /// Seconds between background refreshes.
    pub refresh_interval_secs: u64,
}

/// The settings, with their texts as characters.
#[verifier::ext_equal]
pub struct ConfigView {
    pub repos: Seq<RepoConfigView>,
    pub shell: Seq<char>,
    pub refresh_interval_secs: u64,
}

impl View for Config {
    type V = ConfigView;

    open spec fn view(&self) -> ConfigView {
        ConfigView {
            repos: configs_view(self.repos@),
            shell: self.shell@,
            refresh_interval_secs: self.refresh_interval_secs,
        }
    }
}

} // verus!
