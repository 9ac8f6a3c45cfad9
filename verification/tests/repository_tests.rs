use rrepos::config::Repository;

#[test]
fn config_test_relative_path_resolution() {
    let mut repo = Repository {
        name: "test-repo".to_string(),
        url: "git@github.com:owner/repo.git".to_string(),
        tags: vec![],
        path: Some("journey".to_string()),
        branch: None,
        config_dir: Some("/some/config/dir".to_string()),
    };

    let target_dir = repo.get_target_dir("/cwd");
    assert_eq!(target_dir, "/some/config/dir/journey");

    repo.path = Some("/absolute/path/to/repo".to_string());
    let target_dir = repo.get_target_dir("/cwd");
    assert_eq!(target_dir, "/absolute/path/to/repo");

    repo.path = None;
    let target_dir = repo.get_target_dir("/cwd");
    assert_eq!(target_dir, "/some/config/dir/cloned_repos/test-repo");
}

#[test]
fn repository_test_relative_path_resolution() {
    let mut repo = Repository {
        name: "test-repo".to_string(),
        url: "git@github.com:owner/repo.git".to_string(),
        tags: vec![],
        path: Some("journey".to_string()),
        branch: None,
        config_dir: Some("/some/config/dir".to_string()),
    };

    let target_dir = repo.get_target_dir("/cwd");
    assert_eq!(target_dir, "/some/config/dir/journey");

    repo.path = Some("/absolute/path/to/repo".to_string());
    let target_dir = repo.get_target_dir("/cwd");
    assert_eq!(target_dir, "/absolute/path/to/repo");

    repo.path = None;
    let target_dir = repo.get_target_dir("/cwd");
    assert_eq!(target_dir, "/some/config/dir/cloned_repos/test-repo");
}

#[test]
fn test_fallback_directory_resolution() {
    let mut repo = Repository {
        name: "test-repo".to_string(),
        url: "git@github.com:owner/repo.git".to_string(),
        tags: vec![],
        path: Some("journey".to_string()),
        branch: None,
        config_dir: None,
    };

    let target_dir = repo.get_target_dir("/current/working/dir");
    assert_eq!(target_dir, "/current/working/dir/journey");

    repo.path = None;
    let target_dir = repo.get_target_dir("/current/working/dir");
    assert_eq!(target_dir, "/current/working/dir/cloned_repos/test-repo");
}

#[test]
fn config_test_url_validation() {
    let repo_ssh = Repository {
        name: "test".to_string(),
        url: "git@github.com:owner/repo.git".to_string(),
        tags: vec![],
        path: None,
        branch: None,
        config_dir: None,
    };
    assert!(repo_ssh.is_url_valid());

    let repo_https = Repository {
        name: "test".to_string(),
        url: "https://github.com/owner/repo.git".to_string(),
        tags: vec![],
        path: None,
        branch: None,
        config_dir: None,
    };
    assert!(repo_https.is_url_valid());

    let repo_invalid = Repository {
        name: "test".to_string(),
        url: "invalid-url".to_string(),
        tags: vec![],
        path: None,
        branch: None,
        config_dir: None,
    };
    assert!(!repo_invalid.is_url_valid());
}

#[test]
fn repository_test_url_validation() {
    let repo_ssh = Repository::new(
        "test".to_string(),
        "git@github.com:owner/repo.git".to_string(),
    );
    assert!(repo_ssh.is_url_valid());

    let repo_https = Repository::new(
        "test".to_string(),
        "https://github.com/owner/repo.git".to_string(),
    );
    assert!(repo_https.is_url_valid());

    let repo_invalid = Repository::new("test".to_string(), "invalid-url".to_string());
    assert!(!repo_invalid.is_url_valid());
}

#[test]
fn test_tag_operations() {
    let mut repo = Repository::new(
        "test".to_string(),
        "git@github.com:owner/repo.git".to_string(),
    );

    assert!(!repo.has_tag("frontend"));

    repo.add_tag("frontend".to_string());
    assert!(repo.has_tag("frontend"));

    repo.add_tag("backend".to_string());
    assert!(repo.has_any_tag(&vec!["frontend".to_string()]));
    assert!(repo.has_any_tag(&vec!["backend".to_string()]));
    assert!(!repo.has_any_tag(&vec!["mobile".to_string()]));

    repo.remove_tag("frontend");
    assert!(!repo.has_tag("frontend"));
    assert!(repo.has_tag("backend"));
}

#[test]
fn test_validation() {
    let valid_repo = Repository::new(
        "test".to_string(),
        "git@github.com:owner/repo.git".to_string(),
    );
    assert!(valid_repo.validate().is_ok());

    let empty_name = Repository::new("".to_string(), "git@github.com:owner/repo.git".to_string());
    assert!(empty_name.validate().is_err());

    let empty_url = Repository::new("test".to_string(), "".to_string());
    assert!(empty_url.validate().is_err());

    let invalid_url = Repository::new("test".to_string(), "invalid-url".to_string());
    assert!(invalid_url.validate().is_err());
}
