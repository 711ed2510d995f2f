use hacktoberfestd::contributors::{merge_contributors, scrape_contributor_collection, ContributorCollection};
use hacktoberfestd::github::{Issue, Label, PullRequest, Repository, User};
use hacktoberfestd::scraper::{
    scrape_pull_request, scrape_repository_collection, PullRequestAuthorAssociation,
    PullRequestMergeableState, PullRequestState, ScrapError,
};
use hacktoberfestd::window::{FIRST_OCTOBER, LAST_OCTOBER};

fn user(login: &str) -> User {
    User {
        login: login.to_owned(),
        avatar_url: format!("https://example.com/{login}.png"),
        html_url: format!("https://github.com/{login}"),
    }
}

fn repository(full_name: &str, topics: &[&str]) -> Repository {
    let name = full_name.split('/').last().unwrap().to_owned();
    Repository {
        name,
        full_name: full_name.to_owned(),
        html_url: format!("https://github.com/{full_name}"),
        description: Some("a repository".to_owned()),
        language: None,
        stargazers_count: 12,
        forks_count: 3,
        forks: 3,
        topics: topics.iter().map(|t| (*t).to_owned()).collect(),
        created_at: 1600000000,
        updated_at: 1664582400,
    }
}

fn issue(node_id: &str, label_names: &[&str]) -> Issue {
    Issue {
        node_id: node_id.to_owned(),
        html_url: "https://github.com/acme/repoA/issues/1".to_owned(),
        title: "an issue".to_owned(),
        comments: 0,
        user: user("somebody"),
        labels: label_names
            .iter()
            .map(|n| Label {
                name: (*n).to_owned(),
                color: "ff0000".to_owned(),
                description: String::new(),
            })
            .collect(),
        created_at: 1664582400,
        updated_at: 1664582400,
    }
}

fn pull(login: &str, number: i64, created_at: i64, merged_at: Option<i64>) -> PullRequest {
    PullRequest {
        html_url: format!("https://github.com/acme/repoA/pull/{number}"),
        state: "closed".to_owned(),
        title: format!("pull {number}"),
        number,
        locked: false,
        user: user(login),
        merged_at,
        closed_at: None,
        created_at,
        updated_at: created_at,
        merged: Some(merged_at.is_some()),
        mergeable_state: None,
        draft: Some(false),
        requested_reviewers: None,
        author_association: None,
        comments: None,
        review_comments: None,
        additions: None,
        deletions: None,
        changed_files: None,
    }
}

fn day(offset_from_first: i64) -> i64 {
    FIRST_OCTOBER + offset_from_first * 86400
}

#[test]
fn test_repository_eligibility() {
    let repo_a = repository("acme/repoA", &["hacktoberfest"]);
    let repo_b = repository("acme/repoB", &[]);
    let ok = scrape_repository_collection(&repo_a, Vec::new(), Vec::new());
    assert!(ok.is_ok());
    let skipped = scrape_repository_collection(&repo_b, Vec::new(), Vec::new());
    assert!(matches!(skipped, Err(ScrapError::InvalidRepo)));
}

#[test]
fn test_repository_issue_filtering() {
    // The listing conflates issues and pull requests; only a real issue
    // carrying the eligibility label is kept.
    let repo = repository("acme/repoA", &["hacktoberfest"]);
    let listed = vec![
        issue("I_1", &["hacktoberfest"]),
        issue("PR_2", &["hacktoberfest"]),
        issue("I_3", &["bug"]),
    ];
    let cleaned = hacktoberfestd::github::clean_issues(listed);
    let record = scrape_repository_collection(&repo, cleaned, vec!["Rust".to_owned()]).unwrap();
    let ids: Vec<&str> = record.issues.iter().map(|i| i.node_id.as_str()).collect();
    assert_eq!(ids, vec!["I_1"]);
    assert_eq!(record.full_name, "acme/repoA");
    assert_eq!(record.languages, vec!["Rust".to_owned()]);
    assert_eq!(record.stars_count, 12);
}

#[test]
fn test_contributors() {
    let pulls = vec![
        pull("alice", 1, day(4), Some(day(9))),
        pull("bob", 2, 1663632000, None),
    ];
    let contributors = scrape_contributor_collection(&pulls);
    assert_eq!(contributors.len(), 1);
    assert_eq!(contributors[0].full_name, "alice");
    assert_eq!(contributors[0].profile_url, "https://github.com/alice");
    assert_eq!(contributors[0].merged_pulls, 1);
    assert_eq!(contributors[0].pending_pulls, 0);
}

#[test]
fn test_contributor_window_edges() {
    let pulls = vec![
        // Created exactly on the bounds: both take part.
        pull("edge", 1, FIRST_OCTOBER, None),
        pull("edge", 2, LAST_OCTOBER, None),
        // Merged exactly on a bound counts as pending: the merge window is
        // strict.
        pull("edge", 3, day(1), Some(FIRST_OCTOBER)),
        pull("edge", 4, day(1), Some(LAST_OCTOBER)),
        // Merged strictly inside counts as merged.
        pull("edge", 5, day(1), Some(day(2))),
        // Created just outside: dropped entirely.
        pull("edge", 6, FIRST_OCTOBER - 1, Some(day(2))),
        pull("edge", 7, LAST_OCTOBER + 1, None),
    ];
    let contributors = scrape_contributor_collection(&pulls);
    assert_eq!(contributors.len(), 1);
    assert_eq!(contributors[0].merged_pulls, 1);
    assert_eq!(contributors[0].pending_pulls, 4);
}

#[test]
fn test_contributor_totals_order_independent() {
    let a = pull("alice", 1, day(4), Some(day(9)));
    let b = pull("alice", 2, day(5), None);
    let c = pull("carol", 3, day(6), Some(day(7)));
    let one_way = scrape_contributor_collection(&vec![a, b, c]);
    let a = pull("alice", 1, day(4), Some(day(9)));
    let b = pull("alice", 2, day(5), None);
    let c = pull("carol", 3, day(6), Some(day(7)));
    let other_way = scrape_contributor_collection(&vec![c, b, a]);
    for name in ["alice", "carol"] {
        let lhs = one_way.iter().find(|r| r.full_name == name).unwrap();
        let rhs = other_way.iter().find(|r| r.full_name == name).unwrap();
        assert_eq!(lhs.merged_pulls, rhs.merged_pulls);
        assert_eq!(lhs.pending_pulls, rhs.pending_pulls);
    }
}

fn contributor(name: &str, merged: i64, pending: i64) -> ContributorCollection {
    ContributorCollection {
        full_name: name.to_owned(),
        profile_url: format!("https://github.com/{name}"),
        merged_pulls: merged,
        pending_pulls: pending,
    }
}

#[test]
fn test_merge_contributors_adds_per_login() {
    let mut acc = vec![contributor("alice", 1, 0)];
    let add = vec![contributor("alice", 2, 1), contributor("bob", 0, 1)];
    let ok = merge_contributors(&mut acc, add);
    assert!(ok);
    assert_eq!(acc.len(), 2);
    let alice = acc.iter().find(|r| r.full_name == "alice").unwrap();
    assert_eq!((alice.merged_pulls, alice.pending_pulls), (3, 1));
    let bob = acc.iter().find(|r| r.full_name == "bob").unwrap();
    assert_eq!((bob.merged_pulls, bob.pending_pulls), (0, 1));
}

#[test]
fn test_merge_contributors_overflow_changes_nothing() {
    let mut acc = vec![contributor("alice", i64::MAX, 0)];
    let add = vec![contributor("alice", 1, 0)];
    let ok = merge_contributors(&mut acc, add);
    assert!(!ok);
    assert_eq!(acc.len(), 1);
    assert_eq!(acc[0].merged_pulls, i64::MAX);
    assert_eq!(acc[0].pending_pulls, 0);
}

#[test]
fn test_pull_request_enrichment() {
    let mut pr = pull("alice", 7, day(4), Some(day(9)));
    pr.state = "open".to_owned();
    pr.mergeable_state = Some("clean".to_owned());
    pr.author_association = Some("FIRST_TIME_CONTRIBUTOR".to_owned());
    pr.comments = Some(5);
    pr.additions = Some(10);
    let rec = scrape_pull_request(pr);
    assert_eq!(rec.number, 7);
    assert!(matches!(rec.state, PullRequestState::Open));
    assert!(matches!(rec.mergeable_state, PullRequestMergeableState::Clean));
    assert!(matches!(
        rec.author_association,
        PullRequestAuthorAssociation::FirstTimeContributor
    ));
    assert_eq!(rec.comments, 5);
    assert_eq!(rec.review_comments, 0);
    assert_eq!(rec.diff.additions, 10);
    assert_eq!(rec.diff.deletions, 0);
    assert_eq!(rec.merged_at, day(9));
}

#[test]
fn test_pull_request_enrichment_defaults() {
    // Unrecognized and absent values default; the mapping never fails.
    let mut pr = pull("alice", 8, day(4), None);
    pr.state = "weird".to_owned();
    pr.mergeable_state = Some("blocked".to_owned());
    pr.author_association = Some("SOMETHING_ELSE".to_owned());
    pr.merged = None;
    pr.draft = None;
    let rec = scrape_pull_request(pr);
    assert!(matches!(rec.state, PullRequestState::Closed));
    assert!(matches!(rec.mergeable_state, PullRequestMergeableState::Unknown));
    assert!(matches!(rec.author_association, PullRequestAuthorAssociation::Unknown));
    assert_eq!(rec.merged_at, i64::MIN);
    assert_eq!(rec.closed_at, i64::MIN);
    assert!(!rec.merged);
    assert!(!rec.draft);
    assert!(rec.requested_reviewers.is_empty());
}
