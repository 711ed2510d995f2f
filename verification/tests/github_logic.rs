use hacktoberfestd::github::{
    classify_status, clean_issues, issues_url, languages_url, pull_request_url,
    repository_list_url, sort_languages, str_eq, Issue, Label, Rate, StatusClass, User,
};
use hacktoberfestd::numbers::{i64_to_string, parse_i64, u64_to_string};

fn user(login: &str) -> User {
    User {
        login: login.to_owned(),
        avatar_url: format!("https://example.com/{login}.png"),
        html_url: format!("https://github.com/{login}"),
    }
}

fn issue(node_id: &str, label_names: &[&str]) -> Issue {
    Issue {
        node_id: node_id.to_owned(),
        html_url: "https://github.com/acme/repo/issues/1".to_owned(),
        title: "an issue".to_owned(),
        comments: 0,
        user: user("somebody"),
        labels: label_names
            .iter()
            .map(|n| Label {
                name: (*n).to_owned(),
                color: "ff0000".to_owned(),
                description: String::new(),
            })
            .collect(),
        created_at: 1664582400,
        updated_at: 1664582400,
    }
}

#[test]
fn test_url_encoding_sec() {
    let name = "aaaa/bb?type=private&_=";
    let p = format!("http://0/asdsdasdad/asaaaaa/{name}/ooookay");
    assert_eq!(
        p,
        "http://0/asdsdasdad/asaaaaa/aaaa/bb?type=private&_=/ooookay"
    );

    let urlencoded_name = urlencoding::encode(&name[..]);
    let p2 = format!("http://0/asdsdasdad/asaaaaa/{urlencoded_name}/ooookay");
    assert_eq!(
        p2,
        "http://0/asdsdasdad/asaaaaa/aaaa%2Fbb%3Ftype%3Dprivate%26_%3D/ooookay"
    );
}

#[test]
fn test_request_urls() {
    assert_eq!(
        repository_list_url("ii64"),
        "https://api.github.com/users/ii64/repos"
    );
    assert_eq!(
        issues_url("teknologi-umum", "blog"),
        "https://api.github.com/repos/teknologi-umum/blog/issues"
    );
    assert_eq!(
        languages_url("a b", "c/d"),
        "https://api.github.com/repos/a%20b/c%2Fd/languages"
    );
    assert_eq!(
        pull_request_url("teknologi-umum", "pehape", 1),
        "https://api.github.com/repos/teknologi-umum/pehape/pulls/1"
    );
}

#[test]
fn test_parse_i64_values() {
    assert_eq!(parse_i64("123"), Some(123));
    assert_eq!(parse_i64("+5"), Some(5));
    assert_eq!(parse_i64("-60"), Some(-60));
    assert_eq!(parse_i64("0"), Some(0));
    assert_eq!(parse_i64("-9223372036854775808"), Some(i64::MIN));
    assert_eq!(parse_i64("9223372036854775807"), Some(i64::MAX));
    assert_eq!(parse_i64("0000000000000000000009"), Some(9));
}

#[test]
fn test_parse_i64_rejections() {
    assert_eq!(parse_i64(""), None);
    assert_eq!(parse_i64("-"), None);
    assert_eq!(parse_i64("+"), None);
    assert_eq!(parse_i64("12a"), None);
    assert_eq!(parse_i64("--1"), None);
    assert_eq!(parse_i64(" 1"), None);
    assert_eq!(parse_i64("9223372036854775808"), None);
    assert_eq!(parse_i64("-9223372036854775809"), None);
}

#[test]
fn test_int_to_string() {
    assert_eq!(u64_to_string(0), "0");
    assert_eq!(u64_to_string(7), "7");
    assert_eq!(u64_to_string(1234567), "1234567");
    assert_eq!(i64_to_string(-42), "-42");
    assert_eq!(i64_to_string(i64::MIN), "-9223372036854775808");
    assert_eq!(i64_to_string(i64::MAX), "9223372036854775807");
}

#[test]
fn test_rate_from_header_pairs() {
    let pairs = vec![
        ("x-ratelimit-limit".to_owned(), "60".to_owned()),
        ("x-ratelimit-remaining".to_owned(), "59".to_owned()),
        ("x-ratelimit-reset".to_owned(), "1664582400".to_owned()),
        ("x-ratelimit-used".to_owned(), "1".to_owned()),
        ("x-ratelimit-resource".to_owned(), "core".to_owned()),
    ];
    let rate = Rate::from_header_pairs(&pairs);
    assert_eq!(rate.limit, 60);
    assert_eq!(rate.remaining, 59);
    assert_eq!(rate.reset, 1664582400);
    assert_eq!(rate.used, 1);
    assert_eq!(rate.resource, "core");
}

#[test]
fn test_rate_defaults_and_first_match() {
    let pairs = vec![
        ("x-ratelimit-limit".to_owned(), "not a number".to_owned()),
        ("x-ratelimit-used".to_owned(), "3".to_owned()),
        ("x-ratelimit-used".to_owned(), "4".to_owned()),
    ];
    let rate = Rate::from_header_pairs(&pairs);
    assert_eq!(rate.limit, 0);
    assert_eq!(rate.remaining, 0);
    assert_eq!(rate.used, 3);
    assert_eq!(rate.resource, "");
}

#[test]
fn test_classify_status_codes() {
    assert!(matches!(classify_status(200), StatusClass::Success));
    assert!(matches!(classify_status(403), StatusClass::RateLimited));
    assert!(matches!(classify_status(404), StatusClass::Unexpected));
    assert!(matches!(classify_status(500), StatusClass::Unexpected));
}

#[test]
fn test_clean_issues_drops_pull_nodes() {
    let issues = vec![
        issue("I_1", &["hacktoberfest"]),
        issue("PR_2", &["hacktoberfest"]),
        issue("I_3", &["bug"]),
    ];
    let clean = clean_issues(issues);
    let ids: Vec<&str> = clean.iter().map(|i| i.node_id.as_str()).collect();
    assert_eq!(ids, vec!["I_1", "I_3"]);
}

#[test]
fn test_sort_languages_descending() {
    let pairs = vec![
        ("Rust".to_owned(), 10i64),
        ("C".to_owned(), 30i64),
        ("Go".to_owned(), 20i64),
    ];
    let names = sort_languages(pairs);
    assert_eq!(names, vec!["C".to_owned(), "Go".to_owned(), "Rust".to_owned()]);
    let empty = sort_languages(Vec::new());
    assert!(empty.is_empty());
}

#[test]
fn test_str_eq_cases() {
    assert!(str_eq("open", "open"));
    assert!(!str_eq("open", "Open"));
    assert!(!str_eq("open", "opened"));
    assert!(str_eq("", ""));
}
