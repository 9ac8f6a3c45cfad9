use rrepos::config::Config;
use rrepos::config::Repository;
use rrepos::dispatch::BatchResult;
use rrepos::dispatch::CommandContext;

#[test]
fn test_batch_isolation() {
    let mut batch = BatchResult::new();
    batch.record("r1".to_string(), true);
    batch.record("r2".to_string(), false);
    batch.record("r3".to_string(), true);

    assert_eq!(batch.succeeded, vec!["r1", "r3"]);
    assert_eq!(batch.failed, vec!["r2"]);
    assert_eq!(batch.succeeded_count(), 2);
    assert_eq!(batch.failed_count(), 1);
}

#[test]
fn test_empty_batch() {
    let batch = BatchResult::new();
    assert_eq!(batch.succeeded_count(), 0);
    assert_eq!(batch.failed_count(), 0);
}

fn two_repo_catalog() -> Config {
    let mut repo1 = Repository::new(
        "repo1".to_string(),
        "git@github.com:owner/repo1.git".to_string(),
    );
    repo1.add_tag("frontend".to_string());

    let mut repo2 = Repository::new(
        "repo2".to_string(),
        "git@github.com:owner/repo2.git".to_string(),
    );
    repo2.add_tag("backend".to_string());

    Config {
        repositories: vec![repo1, repo2],
    }
}

#[test]
fn test_filter_tag_selects_by_membership() {
    let config = two_repo_catalog();
    let selected = config.filter_repositories(Some("frontend"), None);
    assert_eq!(selected.len(), 1);
    assert_eq!(selected[0].name, "repo1");
}

#[test]
fn test_filter_names_selects_listed() {
    let config = two_repo_catalog();
    let selected = config.filter_repositories(None, Some(&vec!["repo2".to_string()]));
    assert_eq!(selected.len(), 1);
    assert_eq!(selected[0].name, "repo2");
}

#[test]
fn test_filter_tag_and_names_intersect() {
    let config = two_repo_catalog();
    let selected = config.filter_repositories(Some("frontend"), Some(&vec!["repo2".to_string()]));
    assert_eq!(selected.len(), 0);
}

#[test]
fn test_context_selection() {
    let context = CommandContext {
        config: two_repo_catalog(),
        tag: Some("backend".to_string()),
        repos: None,
        parallel: false,
    };
    let selected = context.selected_repositories();
    assert_eq!(selected.len(), 1);
    assert_eq!(selected[0].name, "repo2");
}
