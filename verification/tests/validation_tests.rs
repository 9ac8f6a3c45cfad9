use rrepos::config::ConfigValidator;
use rrepos::config::Repository;
use rrepos::config::repository::RepositoryError;
use rrepos::config::validation::ValidationIssue;

#[test]
fn test_validate_repositories() {
    let repos = vec![
        Repository::new(
            "repo1".to_string(),
            "git@github.com:owner/repo1.git".to_string(),
        ),
        Repository::new(
            "repo2".to_string(),
            "git@github.com:owner/repo2.git".to_string(),
        ),
    ];

    assert!(ConfigValidator::validate_repositories(&repos).is_ok());
}

#[test]
fn test_duplicate_names() {
    let repos = vec![
        Repository::new(
            "repo1".to_string(),
            "git@github.com:owner/repo1.git".to_string(),
        ),
        Repository::new(
            "repo1".to_string(),
            "git@github.com:owner/repo2.git".to_string(),
        ),
    ];

    assert!(ConfigValidator::validate_repositories(&repos).is_err());
}

#[test]
fn test_tag_filter_validation() {
    assert!(ConfigValidator::validate_tag_filter("frontend").is_ok());
    assert!(ConfigValidator::validate_tag_filter("").is_err());
    assert!(ConfigValidator::validate_tag_filter("   ").is_err());
    assert!(ConfigValidator::validate_tag_filter("\u{a0}\u{2003}").is_err());
}

#[test]
fn test_tag_exists_validation() {
    let mut repo1 = Repository::new(
        "repo1".to_string(),
        "git@github.com:owner/repo1.git".to_string(),
    );
    repo1.add_tag("frontend".to_string());

    let repos = vec![repo1];

    assert!(ConfigValidator::validate_tag_exists(&repos, "frontend").is_ok());
    assert!(ConfigValidator::validate_tag_exists(&repos, "backend").is_err());
}

#[test]
fn test_duplicate_name_issue_reported() {
    let repos = vec![
        Repository::new(
            "repo1".to_string(),
            "git@github.com:owner/repo1.git".to_string(),
        ),
        Repository::new(
            "repo1".to_string(),
            "git@github.com:owner/repo2.git".to_string(),
        ),
    ];

    let issues = ConfigValidator::validate_repositories(&repos).unwrap_err();
    assert_eq!(issues.len(), 1);
    assert!(matches!(&issues[0], ValidationIssue::DuplicateName(n) if n == "repo1"));
}

#[test]
fn test_invalid_repository_issue_reported() {
    let repos = vec![Repository::new(
        "broken".to_string(),
        "invalid-url".to_string(),
    )];

    let issues = ConfigValidator::validate_repositories(&repos).unwrap_err();
    assert_eq!(issues.len(), 1);
    assert!(matches!(
        &issues[0],
        ValidationIssue::InvalidRepository(n, RepositoryError::InvalidUrl) if n == "broken"
    ));
}

#[test]
fn test_validate_empty_name_and_url_errors() {
    let empty_name = Repository::new("".to_string(), "git@github.com:o/r.git".to_string());
    assert!(matches!(
        empty_name.validate(),
        Err(RepositoryError::EmptyName)
    ));

    let empty_url = Repository::new("test".to_string(), "".to_string());
    assert!(matches!(empty_url.validate(), Err(RepositoryError::EmptyUrl)));

    let bad_url = Repository::new("test".to_string(), "ftp://x".to_string());
    assert!(matches!(bad_url.validate(), Err(RepositoryError::InvalidUrl)));
}
