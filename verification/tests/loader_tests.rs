use rrepos::config::Config;
use rrepos::config::Repository;

fn create_test_config() -> Config {
    let mut repo1 = Repository::new(
        "repo1".to_string(),
        "git@github.com:owner/repo1.git".to_string(),
    );
    repo1.add_tag("frontend".to_string());
    repo1.add_tag("web".to_string());

    let mut repo2 = Repository::new(
        "repo2".to_string(),
        "git@github.com:owner/repo2.git".to_string(),
    );
    repo2.add_tag("backend".to_string());
    repo2.add_tag("api".to_string());

    Config {
        repositories: vec![repo1, repo2],
    }
}

#[test]
fn test_filter_by_tag() {
    let config = create_test_config();

    let frontend_repos = config.filter_by_tag(Some("frontend"));
    assert_eq!(frontend_repos.len(), 1);
    assert_eq!(frontend_repos[0].name, "repo1");

    let all_repos = config.filter_by_tag(None);
    assert_eq!(all_repos.len(), 2);
}

#[test]
fn test_filter_by_any_tag() {
    let config = create_test_config();

    let web_repos = config.filter_by_any_tag(&vec!["frontend".to_string(), "api".to_string()]);
    assert_eq!(web_repos.len(), 2);

    let no_match = config.filter_by_any_tag(&vec!["mobile".to_string()]);
    assert_eq!(no_match.len(), 0);
}

#[test]
fn test_get_all_tags() {
    let config = create_test_config();
    let tags = config.get_all_tags();

    assert_eq!(tags, vec!["api", "backend", "frontend", "web"]);
}

#[test]
fn test_filter_by_names() {
    let config = create_test_config();

    let specific_repos = config.filter_by_names(&vec!["repo1".to_string()]);
    assert_eq!(specific_repos.len(), 1);
    assert_eq!(specific_repos[0].name, "repo1");

    let multiple_repos = config.filter_by_names(&vec!["repo1".to_string(), "repo2".to_string()]);
    assert_eq!(multiple_repos.len(), 2);

    let no_match = config.filter_by_names(&vec!["nonexistent".to_string()]);
    assert_eq!(no_match.len(), 0);

    let empty_filter = config.filter_by_names(&vec![]);
    assert_eq!(empty_filter.len(), 2);
}

#[test]
fn test_filter_repositories_combined() {
    let config = create_test_config();

    let filtered = config.filter_repositories(Some("frontend"), Some(&vec!["repo1".to_string()]));
    assert_eq!(filtered.len(), 1);
    assert_eq!(filtered[0].name, "repo1");

    let filtered = config.filter_repositories(Some("backend"), Some(&vec!["repo1".to_string()]));
    assert_eq!(filtered.len(), 0);

    let filtered = config.filter_repositories(None, Some(&vec!["repo1".to_string()]));
    assert_eq!(filtered.len(), 1);
    assert_eq!(filtered[0].name, "repo1");

    let filtered = config.filter_repositories(Some("frontend"), None);
    assert_eq!(filtered.len(), 1);
    assert_eq!(filtered[0].name, "repo1");

    let filtered = config.filter_repositories(None, None);
    assert_eq!(filtered.len(), 2);
}

#[test]
fn test_add_remove_repository() {
    let mut config = Config::new();

    let repo = Repository::new(
        "test".to_string(),
        "git@github.com:owner/test.git".to_string(),
    );

    config.add_repository(repo).unwrap();
    assert_eq!(config.repositories.len(), 1);

    let removed = config.remove_repository("test");
    assert!(removed);
    assert_eq!(config.repositories.len(), 0);

    let not_removed = config.remove_repository("nonexistent");
    assert!(!not_removed);
}
