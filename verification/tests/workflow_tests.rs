use rrepos::config::Repository;
use rrepos::gitcmd::clone_arguments;
use rrepos::github::PrOptions;
use rrepos::github::PullRequestParams;
use rrepos::github::workflow::PrPlan;
use rrepos::github::workflow::create_pull_request_plan;
use rrepos::github::workflow::resolve_base_branch;

fn base_options() -> PrOptions {
    PrOptions::new(
        "A title".to_string(),
        "A body".to_string(),
        "token123".to_string(),
    )
}

#[test]
fn test_plan_without_changes_stops() {
    let plan = create_pull_request_plan(&base_options(), false);
    assert!(matches!(plan, PrPlan::NoChanges));
}

#[test]
fn test_plan_uses_requested_names() {
    let options = base_options()
        .with_branch_name("feature/x".to_string())
        .with_commit_message("fix things".to_string());
    match create_pull_request_plan(&options, true) {
        PrPlan::Proceed {
            branch_name,
            commit_message,
            push_and_create,
        } => {
            assert_eq!(branch_name, "feature/x");
            assert_eq!(commit_message, "fix things");
            assert!(push_and_create);
        }
        PrPlan::NoChanges => panic!("changes were present"),
    }
}

#[test]
fn test_plan_generates_branch_and_defaults_message_to_title() {
    match create_pull_request_plan(&base_options(), true) {
        PrPlan::Proceed {
            branch_name,
            commit_message,
            push_and_create,
        } => {
            assert!(branch_name.starts_with("automated-changes-"));
            assert_eq!(branch_name.len(), "automated-changes-".len() + 6);
            assert_eq!(commit_message, "A title");
            assert!(push_and_create);
        }
        PrPlan::NoChanges => panic!("changes were present"),
    }
}

#[test]
fn test_plan_create_only_skips_push() {
    let options = base_options().create_only();
    match create_pull_request_plan(&options, true) {
        PrPlan::Proceed { push_and_create, .. } => assert!(!push_and_create),
        PrPlan::NoChanges => panic!("changes were present"),
    }
}

#[test]
fn test_generated_branch_names_vary() {
    let a = match create_pull_request_plan(&base_options(), true) {
        PrPlan::Proceed { branch_name, .. } => branch_name,
        PrPlan::NoChanges => panic!("changes were present"),
    };
    let b = match create_pull_request_plan(&base_options(), true) {
        PrPlan::Proceed { branch_name, .. } => branch_name,
        PrPlan::NoChanges => panic!("changes were present"),
    };
    assert_eq!(a.len(), b.len());
}

#[test]
fn test_resolve_base_branch() {
    assert_eq!(resolve_base_branch(&base_options()), "main");
    let options = base_options().with_base_branch("develop".to_string());
    assert_eq!(resolve_base_branch(&options), "develop");
}

#[test]
fn test_draft_flag() {
    let options = base_options().as_draft();
    assert!(options.draft);
    assert!(!base_options().draft);
}

#[test]
fn test_pull_request_params() {
    let params = PullRequestParams::new("owner", "repo", "t", "b", "head", "main", true);
    assert_eq!(params.owner, "owner");
    assert_eq!(params.repo, "repo");
    assert_eq!(params.title, "t");
    assert_eq!(params.body, "b");
    assert_eq!(params.head, "head");
    assert_eq!(params.base, "main");
    assert!(params.draft);
}

#[test]
fn test_clone_arguments_with_branch() {
    let mut repo = Repository::new(
        "repo1".to_string(),
        "git@github.com:owner/repo1.git".to_string(),
    );
    repo.branch = Some("develop".to_string());
    repo.config_dir = Some("/work".to_string());
    let args = clone_arguments(&repo, "/cwd");
    assert_eq!(
        args,
        vec![
            "clone",
            "-b",
            "develop",
            "git@github.com:owner/repo1.git",
            "/work/cloned_repos/repo1",
        ]
    );
}

#[test]
fn test_clone_arguments_default_branch() {
    let mut repo = Repository::new(
        "repo1".to_string(),
        "git@github.com:owner/repo1.git".to_string(),
    );
    repo.config_dir = Some("/work".to_string());
    let args = clone_arguments(&repo, "/cwd");
    assert_eq!(
        args,
        vec![
            "clone",
            "git@github.com:owner/repo1.git",
            "/work/cloned_repos/repo1",
        ]
    );
}
