use rrepos::github::GitHubAuth;
use rrepos::github::GitHubClient;
use rrepos::github::GitHubError;
use rrepos::github::client::pulls_endpoint;
use rrepos::github::parse_github_url;

#[test]
fn test_parse_github_url_standard() {
    let (owner, repo) = parse_github_url("git@github.com:owner/repo.git").unwrap();
    assert_eq!(owner, "owner");
    assert_eq!(repo, "repo");

    let (owner, repo) = parse_github_url("https://github.com/owner/repo.git").unwrap();
    assert_eq!(owner, "owner");
    assert_eq!(repo, "repo");
}

#[test]
fn test_parse_github_url_enterprise() {
    let (owner, repo) = parse_github_url("git@github-enterprise:nicos_backbase/journey.git").unwrap();
    assert_eq!(owner, "nicos_backbase");
    assert_eq!(repo, "journey");

    let (owner, repo) =
        parse_github_url("https://github-enterprise.com/nicos_backbase/journey.git").unwrap();
    assert_eq!(owner, "nicos_backbase");
    assert_eq!(repo, "journey");
}

#[test]
fn test_parse_github_url_without_git_suffix() {
    let (owner, repo) = parse_github_url("git@custom-host:owner/repo").unwrap();
    assert_eq!(owner, "owner");
    assert_eq!(repo, "repo");

    let (owner, repo) = parse_github_url("https://custom-host.com/owner/repo").unwrap();
    assert_eq!(owner, "owner");
    assert_eq!(repo, "repo");
}

#[test]
fn test_parse_github_url_invalid() {
    assert!(parse_github_url("invalid-url").is_err());
    assert!(parse_github_url("git@host").is_err());
    assert!(parse_github_url("https://host.com").is_err());
}

#[test]
fn test_parse_github_url_ssh_github_com() {
    let client = GitHubClient::new(None);
    let (owner, repo) = client
        .parse_github_url("git@github.com:owner/repo")
        .unwrap();
    assert_eq!(owner, "owner");
    assert_eq!(repo, "repo");
}

#[test]
fn test_parse_github_url_ssh_enterprise() {
    let client = GitHubClient::new(None);
    let (owner, repo) = client
        .parse_github_url("git@github-enterprise:nicos_backbase/journey")
        .unwrap();
    assert_eq!(owner, "nicos_backbase");
    assert_eq!(repo, "journey");
}

#[test]
fn test_parse_github_url_https_github_com() {
    let client = GitHubClient::new(None);
    let (owner, repo) = client
        .parse_github_url("https://github.com/owner/repo")
        .unwrap();
    assert_eq!(owner, "owner");
    assert_eq!(repo, "repo");
}

#[test]
fn test_parse_github_url_https_enterprise() {
    let client = GitHubClient::new(None);
    let (owner, repo) = client
        .parse_github_url("https://github-enterprise/owner/repo")
        .unwrap();
    assert_eq!(owner, "owner");
    assert_eq!(repo, "repo");
}

#[test]
fn test_parse_github_url_with_git_suffix() {
    let client = GitHubClient::new(None);
    let (owner, repo) = client
        .parse_github_url("git@github-enterprise:owner/repo.git")
        .unwrap();
    assert_eq!(owner, "owner");
    assert_eq!(repo, "repo");
}

#[test]
fn test_parse_github_url_legacy_format() {
    let client = GitHubClient::new(None);
    let (owner, repo) = client.parse_github_url("github.com/owner/repo").unwrap();
    assert_eq!(owner, "owner");
    assert_eq!(repo, "repo");
}

#[test]
fn test_parse_error_reports_trimmed_url() {
    let err = parse_github_url("invalid-url.git").unwrap_err();
    assert!(matches!(err, GitHubError::ParseError(m) if m == "invalid-url"));

    let client = GitHubClient::new(None);
    let err = client.parse_github_url("nothing-here///").unwrap_err();
    assert!(matches!(err, GitHubError::ParseError(m) if m == "nothing-here"));
}

#[test]
fn test_auth_header_and_token_validation() {
    let auth = GitHubAuth::new("abc123".to_string());
    assert_eq!(auth.token(), "abc123");
    assert_eq!(auth.get_auth_header(), "Bearer abc123");
    assert!(auth.validate_token().is_ok());

    let empty = GitHubAuth::new("".to_string());
    assert!(matches!(empty.validate_token(), Err(GitHubError::AuthError)));
}

#[test]
fn test_error_messages() {
    assert_eq!(
        GitHubError::ApiError("boom".to_string()).message(),
        "GitHub API error: boom"
    );
    assert_eq!(
        GitHubError::AuthError.message(),
        "GitHub authentication error"
    );
    assert_eq!(
        GitHubError::NetworkError("down".to_string()).message(),
        "Network error: down"
    );
    assert_eq!(
        GitHubError::ParseError("u".to_string()).message(),
        "Parse error: u"
    );
}

#[test]
fn test_pulls_endpoint() {
    assert_eq!(
        pulls_endpoint("owner", "repo"),
        "https://api.github.com/repos/owner/repo/pulls"
    );
}
