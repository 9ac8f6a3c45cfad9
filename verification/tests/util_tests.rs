use rrepos::config::Repository;
use rrepos::util::ProjectMarkers;
use rrepos::util::create_repository_from_path;
use rrepos::util::detect_tags;
use rrepos::util::detect_tags_from_path;
use rrepos::util::path_file_name;

fn no_markers() -> ProjectMarkers {
    ProjectMarkers {
        go: false,
        node: false,
        python: false,
        java: false,
        rust: false,
    }
}

#[test]
fn test_detect_tags_languages() {
    let markers = ProjectMarkers {
        go: true,
        node: true,
        python: false,
        java: false,
        rust: true,
    };
    let tags = detect_tags(&markers, "/work/thing");
    assert_eq!(tags, vec!["go", "javascript", "node", "rust"]);
}

#[test]
fn test_detect_tags_roles_from_path() {
    let tags = detect_tags(&no_markers(), "/work/frontend-app");
    assert_eq!(tags, vec!["frontend"]);

    let tags = detect_tags(&no_markers(), "/work/api-server");
    assert_eq!(tags, vec!["backend"]);

    let tags = detect_tags(&no_markers(), "/work/android-client");
    assert_eq!(tags, vec!["mobile"]);
}

#[test]
fn test_detect_tags_from_path_lowercases() {
    let tags = detect_tags_from_path(&no_markers(), "/work/FRONTEND-App");
    assert_eq!(tags, vec!["frontend"]);
}

#[test]
fn test_path_file_name() {
    assert_eq!(path_file_name("/work/repo1"), Some("repo1".to_string()));
    assert_eq!(path_file_name("/work/repo1/"), Some("repo1".to_string()));
    assert_eq!(path_file_name("repo1"), Some("repo1".to_string()));
    assert_eq!(path_file_name(""), None);
    assert_eq!(path_file_name("/"), None);
    assert_eq!(path_file_name("/work/.."), None);
}

#[test]
fn test_create_repository_from_path() {
    let repo: Repository = create_repository_from_path(
        "/work/web-client",
        Some("git@github.com:owner/web-client.git".to_string()),
        &no_markers(),
    )
    .unwrap();
    assert_eq!(repo.name, "web-client");
    assert_eq!(repo.url, "git@github.com:owner/web-client.git");
    assert_eq!(repo.tags, vec!["frontend"]);
    assert_eq!(repo.path, Some("/work/web-client".to_string()));
    assert!(repo.branch.is_none());
    assert!(repo.config_dir.is_none());
}

#[test]
fn test_create_repository_needs_name_and_url() {
    assert!(create_repository_from_path("/", Some("git@h:o/r".to_string()), &no_markers()).is_none());
    assert!(create_repository_from_path("/work/repo1", None, &no_markers()).is_none());
}

#[test]
fn test_target_dir_exists() {
    let mut repo = Repository::new("r".to_string(), "git@h:o/r.git".to_string());
    repo.path = Some("/".to_string());
    assert!(repo.target_dir_exists("/"));
    repo.path = Some("/surely/not/a/real/directory/anywhere".to_string());
    assert!(!repo.target_dir_exists("/"));
}
