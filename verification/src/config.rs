//! The persisted configuration: the target list and the cache, read at the
//! start of each cycle. Loading and saving the file live outside the
//! library.

use vstd::prelude::*;
use vstd::string::StringExecFns;
use crate::cache::Cache;
use crate::target::ScrapeTarget;

verus! {

/// The in-memory configuration: scrape targets and the shared cache with
/// its last-cycle timestamp.
#[derive(Debug)]
pub struct Config {
    pub scrape_target: Vec<ScrapeTarget>,
    pub cached: Cache,
}

impl Config {
    /// The configuration a fresh installation starts from: one account-wide
    /// target and an empty cache.
    pub fn default() -> (c: Config)
        ensures
            c.scrape_target@.len() == 1,
            c.scrape_target@[0].username@ == "teknologi-umum"@,
            c.scrape_target@[0].repo_names is None,
            !c.scrape_target@[0].ignore,
            c.cached.spec_repo() is None,
            c.cached.spec_contributors() is None,
            c.cached.spec_pull_request() is None,
            c.cached.spec_last_scrape() is None,
    {
        let mut targets: Vec<ScrapeTarget> = Vec::new();
        targets.push(ScrapeTarget::user(String::from_str("teknologi-umum")));
        Config { scrape_target: targets, cached: Cache::new() }
    }

    /// Checks the configuration over; every configuration is accepted as it
    /// stands.
    pub fn validate(self) -> (r: Result<Config, String>)
        ensures
            r matches Ok(c) && c == self,
    {
        Ok(self)
    }
}

} // verus!
