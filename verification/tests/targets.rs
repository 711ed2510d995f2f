use hacktoberfestd::target::{list_active_targets, ScrapeTarget, ScrapeTargetType};

#[test]
fn test_scrape_target_ignore() {
    let mut target = ScrapeTarget::user("somebody".to_owned());
    assert_eq!(target.ignore, false);
    target = target.ignore();
    assert_eq!(target.ignore, true);
}

#[test]
fn test_scrape_target_links() {
    let targ = ScrapeTarget::repos(
        "somebody".to_owned(),
        vec!["a".to_owned(), "b".to_owned(), "c".to_owned()],
    );
    let links = targ.target_links();
    println!("{:?}", links);
}

#[test]
fn test_target_links_content() {
    let targ = ScrapeTarget::repos("somebody".to_owned(), vec!["a".to_owned(), "b".to_owned()]);
    let links = targ.target_links();
    assert_eq!(links.len(), 2);
    assert_eq!(links[0], "https://github.com/somebody/a");
    assert_eq!(links[1], "https://github.com/somebody/b");
}

#[test]
fn test_target_links_empty_without_repo_list() {
    let targ = ScrapeTarget::user("somebody".to_owned());
    assert!(targ.target_links().is_empty());
}

#[test]
fn test_list_active_targets_drops_ignored() {
    let targets = vec![
        ScrapeTarget::user("first".to_owned()),
        ScrapeTarget::user("second".to_owned()).ignore(),
        ScrapeTarget::user("third".to_owned()),
    ];
    let active = list_active_targets(targets);
    assert_eq!(active.len(), 2);
    assert_eq!(active[0].username, "first");
    assert_eq!(active[1].username, "third");
    assert!(active.iter().all(|t| !t.ignore));
}

#[test]
fn test_target_constructors() {
    let user = ScrapeTarget::user("acme".to_owned());
    assert!(matches!(user.target_type, ScrapeTargetType::User));
    assert!(user.repo_names.is_none());
    let repos = ScrapeTarget::repos("acme".to_owned(), vec!["r".to_owned()]);
    assert!(matches!(repos.target_type, ScrapeTargetType::Repo));
    assert_eq!(repos.repo_names.as_ref().unwrap().len(), 1);
}
