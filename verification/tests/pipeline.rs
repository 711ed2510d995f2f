use hacktoberfestd::cache::{Cache, ContributorResponse};
use hacktoberfestd::contributors::ContributorCollection;
use hacktoberfestd::config::Config;
use hacktoberfestd::github::{PullRequest, Repository, User};
use hacktoberfestd::orchestrator::{FetchRequest, Orchestrator};
use hacktoberfestd::retry::RetrySchedule;
use hacktoberfestd::scraper::ScrapError;
use hacktoberfestd::target::ScrapeTarget;
use hacktoberfestd::window::FIRST_OCTOBER;

fn user(login: &str) -> User {
    User {
        login: login.to_owned(),
        avatar_url: format!("https://example.com/{login}.png"),
        html_url: format!("https://github.com/{login}"),
    }
}

fn repository(full_name: &str, topics: &[&str]) -> Repository {
    let name = full_name.split('/').last().unwrap().to_owned();
    Repository {
        name,
        full_name: full_name.to_owned(),
        html_url: format!("https://github.com/{full_name}"),
        description: None,
        language: None,
        stargazers_count: 1,
        forks_count: 0,
        forks: 0,
        topics: topics.iter().map(|t| (*t).to_owned()).collect(),
        created_at: 1600000000,
        updated_at: 1664582400,
    }
}

fn pull(login: &str, number: i64, created_at: i64, merged_at: Option<i64>) -> PullRequest {
    PullRequest {
        html_url: format!("https://github.com/acme/repoA/pull/{number}"),
        state: "closed".to_owned(),
        title: format!("pull {number}"),
        number,
        locked: false,
        user: user(login),
        merged_at,
        closed_at: None,
        created_at,
        updated_at: created_at,
        merged: Some(merged_at.is_some()),
        mergeable_state: None,
        draft: Some(false),
        requested_reviewers: None,
        author_association: None,
        comments: None,
        review_comments: None,
        additions: None,
        deletions: None,
        changed_files: None,
    }
}

#[test]
fn test_cache_starts_empty() {
    let cache = Cache::new();
    assert_eq!(cache.repo_json(), "[]");
    assert_eq!(cache.contributors_json(), "[]");
    assert_eq!(cache.pull_request_json(), "[]");
    assert!(cache.last_scrape().is_none());
}

#[test]
fn test_cache_publish_replaces_all_keys() {
    let mut cache = Cache::new();
    let outcome = cache.publish(
        Ok("[\"r\"]".to_owned()),
        Ok("[\"c\"]".to_owned()),
        Ok("[\"p\"]".to_owned()),
        1664582400,
    );
    assert!(outcome.is_ok());
    assert_eq!(cache.repo_json(), "[\"r\"]");
    assert_eq!(cache.contributors_json(), "[\"c\"]");
    assert_eq!(cache.pull_request_json(), "[\"p\"]");
    assert_eq!(cache.last_scrape(), Some(1664582400));
}

#[test]
fn test_cache_publish_is_all_or_nothing() {
    let mut cache = Cache::new();
    cache
        .publish(
            Ok("old-r".to_owned()),
            Ok("old-c".to_owned()),
            Ok("old-p".to_owned()),
            1,
        )
        .unwrap();
    // One collection fails to serialize: the publish is aborted entirely and
    // the previous contents stay, reported as a cycle-level error.
    let outcome = cache.publish(
        Ok("new-r".to_owned()),
        Err("cannot serialize".to_owned()),
        Ok("new-p".to_owned()),
        2,
    );
    assert!(matches!(outcome, Err(ScrapError::Serde(ref m)) if m == "cannot serialize"));
    assert_eq!(cache.repo_json(), "old-r");
    assert_eq!(cache.contributors_json(), "old-c");
    assert_eq!(cache.pull_request_json(), "old-p");
    assert_eq!(cache.last_scrape(), Some(1));
}

#[test]
fn test_retry_schedule_growth_and_jitter() {
    let mut schedule = RetrySchedule::new(500, 60000, 900000);
    // No jitter drawn: half the base.
    assert_eq!(schedule.next_delay(0), Some(250));
    assert_eq!(schedule.current_ms, 750);
    // The drawn jitter is capped at the base.
    assert_eq!(schedule.next_delay(10000), Some(375 + 750));
    assert_eq!(schedule.current_ms, 1125);
}

#[test]
fn test_retry_schedule_caps_and_gives_up() {
    let mut schedule = RetrySchedule::new(50000, 60000, 900000);
    schedule.next_delay(0);
    assert_eq!(schedule.current_ms, 60000);
    let mut short = RetrySchedule::new(10, 20, 0);
    assert!(short.next_delay(0).is_some());
    assert!(short.next_delay(0).is_none());
    short.reset();
    assert!(short.next_delay(0).is_some());
}

#[test]
fn test_config_default() {
    let config = Config::default();
    assert_eq!(config.scrape_target.len(), 1);
    assert_eq!(config.scrape_target[0].username, "teknologi-umum");
    assert!(!config.scrape_target[0].ignore);
    let validated = config.validate().unwrap();
    assert_eq!(validated.scrape_target.len(), 1);
}

#[test]
fn test_cycle_skips_ineligible_repositories() {
    // One owner target; upstream lists an eligible and an ineligible
    // repository. Only the eligible one yields a record, and the cycle does
    // not abort over the other.
    let targets = vec![ScrapeTarget::user("acme".to_owned())];
    let mut cycle = Orchestrator::new(targets, 100);

    match cycle.next_request() {
        FetchRequest::Repositories { username, per_page } => {
            assert_eq!(username, "acme");
            assert_eq!(per_page, 100);
        }
        other => panic!("unexpected request {:?}", other),
    }
    cycle.give_repositories(Ok(vec![
        repository("acme/repoA", &["hacktoberfest"]),
        repository("acme/repoB", &[]),
    ]));

    match cycle.next_request() {
        FetchRequest::RepositoryData { repo_name, .. } => assert_eq!(repo_name, "repoA"),
        other => panic!("unexpected request {:?}", other),
    }
    cycle.give_repo_data(Ok(Vec::new()), Ok(vec![("Rust".to_owned(), 10)]));

    match cycle.next_request() {
        FetchRequest::Pulls { repo_name, .. } => assert_eq!(repo_name, "repoA"),
        other => panic!("unexpected request {:?}", other),
    }
    let pulls = vec![
        pull("alice", 1, FIRST_OCTOBER + 4 * 86400, Some(FIRST_OCTOBER + 9 * 86400)),
        pull("bob", 2, FIRST_OCTOBER - 86400, None),
    ];
    cycle.give_pulls(Ok(pulls));

    // Only the windowed pull is enriched; repoB is never asked about.
    match cycle.next_request() {
        FetchRequest::PullDetail { repo_name, number, .. } => {
            assert_eq!(repo_name, "repoA");
            assert_eq!(number, 1);
        }
        other => panic!("unexpected request {:?}", other),
    }
    cycle.give_pull_detail(Ok(pull(
        "alice",
        1,
        FIRST_OCTOBER + 4 * 86400,
        Some(FIRST_OCTOBER + 9 * 86400),
    )));

    match cycle.next_request() {
        FetchRequest::Publish => {}
        other => panic!("unexpected request {:?}", other),
    }
    assert_eq!(cycle.repo_out.len(), 1);
    assert_eq!(cycle.repo_out[0].full_name, "acme/repoA");
    assert_eq!(cycle.contrib_out.len(), 1);
    assert_eq!(cycle.contrib_out[0].full_name, "alice");
    assert_eq!(cycle.contrib_out[0].merged_pulls, 1);
    assert_eq!(cycle.pull_out.len(), 1);
    assert_eq!(cycle.pull_out[0].number, 1);

    let mut cache = Cache::new();
    let published = cycle.publish_serialized(
        &mut cache,
        Ok("[{}]".to_owned()),
        Ok("[{}]".to_owned()),
        Ok("[{}]".to_owned()),
        1664582400,
    );
    assert!(published.is_ok());
    assert_eq!(cache.repo_json(), "[{}]");
    assert!(matches!(cycle.next_request(), FetchRequest::Done));
}

#[test]
fn test_cycle_never_lists_ignored_targets() {
    let targets = vec![
        ScrapeTarget::user("muted".to_owned()).ignore(),
        ScrapeTarget::user("active".to_owned()),
    ];
    let mut cycle = Orchestrator::new(targets, 50);
    match cycle.next_request() {
        FetchRequest::Repositories { username, .. } => assert_eq!(username, "active"),
        other => panic!("unexpected request {:?}", other),
    }
    cycle.give_repositories(Ok(Vec::new()));
    assert!(matches!(cycle.next_request(), FetchRequest::Publish));
}

#[test]
fn test_cycle_isolates_target_listing_failure() {
    let targets = vec![
        ScrapeTarget::user("first".to_owned()),
        ScrapeTarget::user("second".to_owned()),
    ];
    let mut cycle = Orchestrator::new(targets, 50);
    // The first target's listing fails; the second is still attempted.
    cycle.give_repositories(Err(hacktoberfestd::github::GithubError::StatusCode(500)));
    match cycle.next_request() {
        FetchRequest::Repositories { username, .. } => assert_eq!(username, "second"),
        other => panic!("unexpected request {:?}", other),
    }
}

#[test]
fn test_cycle_restricts_repo_list_targets() {
    let targets = vec![ScrapeTarget::repos(
        "acme".to_owned(),
        vec!["repoA".to_owned()],
    )];
    let mut cycle = Orchestrator::new(targets, 50);
    cycle.give_repositories(Ok(vec![
        repository("acme/repoX", &["hacktoberfest"]),
        repository("acme/repoA", &["hacktoberfest"]),
    ]));
    match cycle.next_request() {
        FetchRequest::RepositoryData { repo_name, .. } => assert_eq!(repo_name, "repoA"),
        other => panic!("unexpected request {:?}", other),
    }
}

#[test]
fn test_cache_publish_reports_first_failure() {
    let mut cache = Cache::new();
    let outcome = cache.publish(
        Err("first".to_owned()),
        Err("second".to_owned()),
        Ok("p".to_owned()),
        3,
    );
    assert!(matches!(outcome, Err(ScrapError::Serde(ref m)) if m == "first"));
    let outcome = cache.publish(
        Ok("r".to_owned()),
        Ok("c".to_owned()),
        Err("third".to_owned()),
        3,
    );
    assert!(matches!(outcome, Err(ScrapError::Serde(ref m)) if m == "third"));
    assert_eq!(cache.repo_json(), "[]");
    assert!(cache.last_scrape().is_none());
}

#[test]
fn test_contributor_response_row() {
    let record = ContributorCollection {
        full_name: "alice".to_owned(),
        profile_url: "https://github.com/alice".to_owned(),
        merged_pulls: 2,
        pending_pulls: 1,
    };
    let row = ContributorResponse::of_collection(&record);
    assert_eq!(row.full_name, "alice");
    assert_eq!(row.profile_url, "https://github.com/alice");
    assert_eq!(row.merged_pulls, 2);
    assert_eq!(row.pending_pulls, 1);
}
