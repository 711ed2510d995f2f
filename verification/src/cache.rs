//! The published cache: three keys of serialized collections and the time of
//! the last successful cycle. Publication replaces everything together or
//! nothing at all, so a reader never sees keys of two different cycles.

use vstd::prelude::*;
use crate::scraper::ScrapError;

verus! {

/// What the read surface serves when a key has never been populated.
pub const EMPTY_PLACEHOLDER: &'static str = "[]";

/// The shared cache: one slot per published collection, and the time of the
/// last successful publication.
#[derive(Debug)]
pub struct Cache {
    repo: Option<String>,
    contributors: Option<String>,
    pull_request: Option<String>,
    last_scrape: Option<i64>,
}

impl Cache {
    /// The serialized repository collection, when one was published.
    pub closed spec fn spec_repo(&self) -> Option<Seq<char>> {
        match self.repo {
            Some(ref s) => Some(s@),
            None => None,
        }
    }

    /// The serialized contributor collection, when one was published.
    pub closed spec fn spec_contributors(&self) -> Option<Seq<char>> {
        match self.contributors {
            Some(ref s) => Some(s@),
            None => None,
        }
    }

    /// The serialized pull-request collection, when one was published.
    pub closed spec fn spec_pull_request(&self) -> Option<Seq<char>> {
        match self.pull_request {
            Some(ref s) => Some(s@),
            None => None,
        }
    }

    /// The time of the last successful publication.
    pub closed spec fn spec_last_scrape(&self) -> Option<i64> {
        self.last_scrape
    }

    /// An empty cache: nothing published yet.
    pub fn new() -> (c: Cache)
        ensures
            c.spec_repo() is None,
            c.spec_contributors() is None,
            c.spec_pull_request() is None,
            c.spec_last_scrape() is None,
    {
        Cache { repo: None, contributors: None, pull_request: None, last_scrape: None }
    }

    /// The time of the last successful publication, if any.
    pub fn last_scrape(&self) -> (r: Option<i64>)
        ensures
            r == self.spec_last_scrape(),
    {
        self.last_scrape
    }

    /// Replaces all three keys and the timestamp together, or nothing: when
    /// any collection failed to serialize, the previous contents stay
    /// untouched and the first failure is reported as a cycle-level error.
    pub fn publish(
        &mut self,
        repo_json: Result<String, String>,
        contributors_json: Result<String, String>,
        pull_request_json: Result<String, String>,
        now: i64,
    ) -> (r: Result<(), ScrapError>)
        ensures
            r is Ok <==> (repo_json is Ok && contributors_json is Ok && pull_request_json is Ok),
            r is Ok ==> final(self).spec_repo() == Some(repo_json->Ok_0@) && final(self)
                .spec_contributors() == Some(contributors_json->Ok_0@) && final(self)
                .spec_pull_request() == Some(pull_request_json->Ok_0@) && final(self)
                .spec_last_scrape() == Some(now),
            r is Err ==> *final(self) == *old(self),
            r is Err ==> (r->Err_0 matches ScrapError::Serde(m) && m@ == (if repo_json is Err {
                repo_json->Err_0@
            } else if contributors_json is Err {
                contributors_json->Err_0@
            } else {
                pull_request_json->Err_0@
            })),
    {
        match (repo_json, contributors_json, pull_request_json) {
            (Ok(r), Ok(c), Ok(p)) => {
                self.repo = Some(r);
                self.contributors = Some(c);
                self.pull_request = Some(p);
                self.last_scrape = Some(now);
                Ok(())
            },
            (Err(m), _, _) => Err(ScrapError::Serde(m)),
            (_, Err(m), _) => Err(ScrapError::Serde(m)),
            (_, _, Err(m)) => Err(ScrapError::Serde(m)),
        }
    }

    /// The repository document the read surface serves: the cached value, or
    /// the empty placeholder before the first publication.
    pub fn repo_json(&self) -> (r: String)
        ensures
            r@ == (match self.spec_repo() {
                Some(s) => s,
                None => EMPTY_PLACEHOLDER@,
            }),
    {
        match &self.repo {
            Some(s) => s.clone(),
            None => String::from_str(EMPTY_PLACEHOLDER),
        }
    }

    /// The contributor document the read surface serves.
    pub fn contributors_json(&self) -> (r: String)
        ensures
            r@ == (match self.spec_contributors() {
                Some(s) => s,
                None => EMPTY_PLACEHOLDER@,
            }),
    {
        match &self.contributors {
            Some(s) => s.clone(),
            None => String::from_str(EMPTY_PLACEHOLDER),
        }
    }

    /// The pull-request document the read surface serves.
    pub fn pull_request_json(&self) -> (r: String)
        ensures
            r@ == (match self.spec_pull_request() {
                Some(s) => s,
                None => EMPTY_PLACEHOLDER@,
            }),
    {
        match &self.pull_request {
            Some(s) => s.clone(),
            None => String::from_str(EMPTY_PLACEHOLDER),
        }
    }
}

/// One row of the contributor document as the read surface describes it.
#[derive(Debug)]
pub struct ContributorResponse {
    pub full_name: String,
    pub profile_url: String,
    pub merged_pulls: i64,
    pub pending_pulls: i64,
}

impl ContributorResponse {
    /// The row that presents one contributor record.
    pub fn of_collection(c: &crate::contributors::ContributorCollection) -> (r:
        ContributorResponse)
        ensures
            r.full_name@ == c.full_name@,
            r.profile_url@ == c.profile_url@,
            r.merged_pulls == c.merged_pulls,
            r.pending_pulls == c.pending_pulls,
    {
        ContributorResponse {
            full_name: c.full_name.clone(),
            profile_url: c.profile_url.clone(),
            merged_pulls: c.merged_pulls,
            pending_pulls: c.pending_pulls,
        }
    }
}

} // verus!
