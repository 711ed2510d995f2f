//! Per-repository aggregation and pull-request enrichment: the derived
//! records a cycle publishes, built from already-fetched values.

use vstd::prelude::*;
use crate::github::{
    clean_issues_of, has_eligible_label, str_eq, GithubError, Issue, PullRequest, Repository,
    spec_has_eligible_label, spec_repo_eligible, repo_is_eligible, User,
};

verus! {

/// The minimum-timestamp sentinel that stands in for an absent merge or
/// close time, keeping the published schema non-optional.
pub const MIN_TIMESTAMP: i64 = i64::MIN;

/// Failure of one scrape step: an ineligible repository (a silent skip, not a
/// fault), a classified API failure, or a serialization failure with its
/// message.
#[derive(Debug)]
pub enum ScrapError {
    InvalidRepo,
    Github(GithubError),
    Serde(String),
}

/// One repository record of a cycle's published collection.
#[derive(Debug)]
pub struct RepositoryCollection {
    pub full_name: String,
    pub html_url: String,
    pub description: Option<String>,
    pub languages: Vec<String>,
    pub stars_count: i64,
    pub forks_count: i64,
    pub topics: Vec<String>,
    pub created_at: i64,
    pub updated_at: i64,
    pub issues: Vec<Issue>,
}

/// The issues kept in a repository record: the ones carrying the eligibility
/// label, in listing order.
pub open spec fn eligible_issues_of(issues: Seq<Issue>) -> Seq<Issue> {
    issues.filter(|i: Issue| spec_has_eligible_label(i))
}

/// Builds the repository record from the repository and its fetched issues
/// and languages. A repository without the eligibility topic yields the
/// ineligible outcome, which callers treat as a silent skip; issues are
/// restricted to the ones carrying the eligibility label.
pub fn scrape_repository_collection(
    repo: &Repository,
    issues: Vec<Issue>,
    languages: Vec<String>,
) -> (r: Result<RepositoryCollection, ScrapError>)
    ensures
        r is Ok <==> spec_repo_eligible(*repo),
        r is Err ==> r->Err_0 is InvalidRepo,
        r matches Ok(c) ==> ({
            &&& c.full_name@ == repo.full_name@
            &&& c.html_url@ == repo.html_url@
            &&& c.description == repo.description
            &&& c.languages == languages
            &&& c.stars_count == repo.stargazers_count
            &&& c.forks_count == repo.forks_count
            &&& c.topics@ == repo.topics@
            &&& c.created_at == repo.created_at
            &&& c.updated_at == repo.updated_at
            &&& c.issues@ == eligible_issues_of(issues@)
        }),
{
    if !repo_is_eligible(repo) {
        return Err(ScrapError::InvalidRepo);
    }

    let ghost s0 = issues@;
    let mut rest = issues;
    let mut kept: Vec<Issue> = Vec::new();
    let ghost mut j: int = 0;
    while rest.len() > 0
        invariant
            0 <= j <= s0.len(),
            rest@ == s0.skip(j),
            kept@ == eligible_issues_of(s0.take(j)),
        decreases rest@.len(),
    {
        let issue = rest.remove(0);
        proof {
            assert(issue == s0[j]);
            assert(s0.skip(j).remove(0) =~= s0.skip(j + 1));
        }
        let keep = has_eligible_label(&issue);
        if keep {
            kept.push(issue);
        }
        proof {
            reveal(Seq::filter);
            assert(s0.take(j + 1).drop_last() == s0.take(j));
            assert(s0.take(j + 1).last() == s0[j]);
            j = j + 1;
        }
    }
    proof {
        assert(s0.take(s0.len() as int) == s0);
    }

    let mut topics: Vec<String> = Vec::new();
    let mut t: usize = 0;
    while t < repo.topics.len()
        invariant
            t <= repo.topics@.len(),
            topics@ == repo.topics@.take(t as int),
        decreases repo.topics@.len() - t,
    {
        topics.push(repo.topics[t].clone());
        proof {
            assert(repo.topics@.take(t + 1) == repo.topics@.take(t as int).push(
                repo.topics@[t as int],
            ));
        }
        t += 1;
    }
    proof {
        assert(repo.topics@.take(repo.topics@.len() as int) == repo.topics@);
    }

    Ok(
        RepositoryCollection {
            full_name: repo.full_name.clone(),
            html_url: repo.html_url.clone(),
            description: match &repo.description {
                Some(d) => Some(d.clone()),
                None => None,
            },
            languages,
            stars_count: repo.stargazers_count,
            forks_count: repo.forks_count,
            topics,
            created_at: repo.created_at,
            updated_at: repo.updated_at,
            issues: kept,
        },
    )
}

/// State of a published pull request.
#[derive(Debug, Clone, Copy, PartialEq, Eq, Structural)]
pub enum PullRequestState {
    Open,
    Closed,
}

/// Mergeable state of a published pull request.
#[derive(Debug, Clone, Copy, PartialEq, Eq, Structural)]
pub enum PullRequestMergeableState {
    Unknown,
    Dirty,
    Clean,
}

/// The author's association with the repository.
#[derive(Debug, Clone, Copy, PartialEq, Eq, Structural)]
pub enum PullRequestAuthorAssociation {
    FirstTimeContributor,
    Contributor,
    Member,
    Owner,
    Unknown,
}

/// Diff statistics of a published pull request.
#[derive(Debug, Clone, Copy, PartialEq, Eq, Structural)]
pub struct PullRequestDiff {
    pub additions: i64,
    pub deletions: i64,
    pub changed_files: i64,
}

/// One pull-request record of a cycle's published collection: the raw record
/// with every open-ended field mapped into a closed shape.
#[derive(Debug)]
pub struct PullRequestCollection {
    pub number: i64,
    pub html_url: String,
    pub title: String,
    pub state: PullRequestState,
    pub mergeable_state: PullRequestMergeableState,
    pub locked: bool,
    pub user: User,
    pub created_at: i64,
    pub updated_at: i64,
    pub merged_at: i64,
    pub closed_at: i64,
    pub merged: bool,
    pub draft: bool,
    pub requested_reviewers: Vec<User>,
    pub author_association: PullRequestAuthorAssociation,
    pub comments: i64,
    pub review_comments: i64,
    pub diff: PullRequestDiff,
}

/// The state mapping: `open` stays open, every other value closes.
pub open spec fn spec_state_of(s: Seq<char>) -> PullRequestState {
    if s == "open"@ {
        PullRequestState::Open
    } else {
        PullRequestState::Closed
    }
}

/// The mergeable-state mapping: unrecognized or absent values default to
/// unknown, never to a failure.
pub open spec fn spec_mergeable_state_of(s: Option<String>) -> PullRequestMergeableState {
    match s {
        Some(v) => if v@ == "clean"@ {
            PullRequestMergeableState::Clean
        } else if v@ == "dirty"@ {
            PullRequestMergeableState::Dirty
        } else {
            PullRequestMergeableState::Unknown
        },
        None => PullRequestMergeableState::Unknown,
    }
}

/// The author-association mapping: unrecognized or absent values default to
/// unknown, never to a failure.
pub open spec fn spec_author_association_of(s: Option<String>) -> PullRequestAuthorAssociation {
    match s {
        Some(v) => if v@ == "FIRST_TIME_CONTRIBUTOR"@ {
            PullRequestAuthorAssociation::FirstTimeContributor
        } else if v@ == "CONTRIBUTOR"@ {
            PullRequestAuthorAssociation::Contributor
        } else if v@ == "MEMBER"@ {
            PullRequestAuthorAssociation::Member
        } else if v@ == "OWNER"@ {
            PullRequestAuthorAssociation::Owner
        } else {
            PullRequestAuthorAssociation::Unknown
        },
        None => PullRequestAuthorAssociation::Unknown,
    }
}

/// How one published pull-request record relates to the fetched one: every
/// open-ended field mapped, every absent value defaulted.
pub open spec fn spec_enriched_matches(pr: PullRequest, r: PullRequestCollection) -> bool {
    &&& r.number == pr.number
    &&& r.html_url == pr.html_url
    &&& r.title == pr.title
    &&& r.state == spec_state_of(pr.state@)
    &&& r.mergeable_state == spec_mergeable_state_of(pr.mergeable_state)
    &&& r.locked == pr.locked
    &&& r.user == pr.user
    &&& r.created_at == pr.created_at
    &&& r.updated_at == pr.updated_at
    &&& r.merged_at == (match pr.merged_at {
        Some(m) => m,
        None => MIN_TIMESTAMP,
    })
    &&& r.closed_at == (match pr.closed_at {
        Some(c) => c,
        None => MIN_TIMESTAMP,
    })
    &&& r.merged == (match pr.merged {
        Some(m) => m,
        None => false,
    })
    &&& r.draft == (match pr.draft {
        Some(d) => d,
        None => false,
    })
    &&& r.requested_reviewers@ == (match pr.requested_reviewers {
        Some(rr) => rr@,
        None => Seq::<User>::empty(),
    })
    &&& r.author_association == spec_author_association_of(pr.author_association)
    &&& r.comments == (match pr.comments {
        Some(c) => c,
        None => 0,
    })
    &&& r.review_comments == (match pr.review_comments {
        Some(c) => c,
        None => 0,
    })
    &&& r.diff.additions == (match pr.additions {
        Some(a) => a,
        None => 0,
    })
    &&& r.diff.deletions == (match pr.deletions {
        Some(d) => d,
        None => 0,
    })
    &&& r.diff.changed_files == (match pr.changed_files {
        Some(c) => c,
        None => 0,
    })
}

/// Normalizes one fetched pull request into the published shape. The mapping
/// is total: every unrecognized or absent value gets its documented default,
/// and absent merge/close times get the minimum-timestamp sentinel.
pub fn scrape_pull_request(pr: PullRequest) -> (r: PullRequestCollection)
    ensures
        spec_enriched_matches(pr, r),
{
    let state = if str_eq(pr.state.as_str(), "open") {
        PullRequestState::Open
    } else {
        PullRequestState::Closed
    };
    let mergeable_state = match &pr.mergeable_state {
        Some(v) => if str_eq(v.as_str(), "clean") {
            PullRequestMergeableState::Clean
        } else if str_eq(v.as_str(), "dirty") {
            PullRequestMergeableState::Dirty
        } else {
            PullRequestMergeableState::Unknown
        },
        None => PullRequestMergeableState::Unknown,
    };
    let author_association = match &pr.author_association {
        Some(v) => if str_eq(v.as_str(), "FIRST_TIME_CONTRIBUTOR") {
            PullRequestAuthorAssociation::FirstTimeContributor
        } else if str_eq(v.as_str(), "CONTRIBUTOR") {
            PullRequestAuthorAssociation::Contributor
        } else if str_eq(v.as_str(), "MEMBER") {
            PullRequestAuthorAssociation::Member
        } else if str_eq(v.as_str(), "OWNER") {
            PullRequestAuthorAssociation::Owner
        } else {
            PullRequestAuthorAssociation::Unknown
        },
        None => PullRequestAuthorAssociation::Unknown,
    };

    PullRequestCollection {
        number: pr.number,
        html_url: pr.html_url,
        title: pr.title,
        state,
        mergeable_state,
        locked: pr.locked,
        user: pr.user,
        created_at: pr.created_at,
        updated_at: pr.updated_at,
        merged_at: match pr.merged_at {
            Some(m) => m,
            None => MIN_TIMESTAMP,
        },
        closed_at: match pr.closed_at {
            Some(c) => c,
            None => MIN_TIMESTAMP,
        },
        merged: match pr.merged {
            Some(m) => m,
            None => false,
        },
        draft: match pr.draft {
            Some(d) => d,
            None => false,
        },
        requested_reviewers: match pr.requested_reviewers {
            Some(rr) => rr,
            None => Vec::new(),
        },
        author_association,
        comments: match pr.comments {
            Some(c) => c,
            None => 0,
        },
        review_comments: match pr.review_comments {
            Some(c) => c,
            None => 0,
        },
        diff: PullRequestDiff {
            additions: match pr.additions {
                Some(a) => a,
                None => 0,
            },
            deletions: match pr.deletions {
                Some(d) => d,
                None => 0,
            },
            changed_files: match pr.changed_files {
                Some(c) => c,
                None => 0,
            },
        },
    }
}

} // verus!
