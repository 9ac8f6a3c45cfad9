//! Data carried by the pull-request workflow.

use vstd::prelude::*;

use crate::strutil::str_concat;
use vstd::string::StringExecFns;

verus! {

/// The fields of one `POST /repos/{owner}/{repo}/pulls` request.
pub struct PullRequestParams<'a> {
    pub owner: &'a str,
    pub repo: &'a str,
    pub title: &'a str,
    pub body: &'a str,
    pub head: &'a str,
    pub base: &'a str,
    pub draft: bool,
}

impl<'a> PullRequestParams<'a> {
    /// Gathers the request fields.
    pub fn new(
        owner: &'a str,
        repo: &'a str,
        title: &'a str,
        body: &'a str,
        head: &'a str,
        base: &'a str,
        draft: bool,
    ) -> (r: Self)
        ensures
            r.owner@ == owner@,
            r.repo@ == repo@,
            r.title@ == title@,
            r.body@ == body@,
            r.head@ == head@,
            r.base@ == base@,
            r.draft == draft,
    {
        PullRequestParams { owner, repo, title, body, head, base, draft }
    }
}

/// What the user asked of the pull-request workflow.
pub struct PrOptions {
    pub title: String,
    pub body: String,
    pub branch_name: Option<String>,
    pub base_branch: Option<String>,
    pub commit_msg: Option<String>,
    pub draft: bool,
    pub token: String,
    pub create_only: bool,
}

impl PrOptions {
    /// Options with only the required fields set.
    pub fn new(title: String, body: String, token: String) -> (r: Self)
        ensures
            r.title@ == title@,
            r.body@ == body@,
            r.token@ == token@,
            r.branch_name is None,
            r.base_branch is None,
            r.commit_msg is None,
            !r.draft,
            !r.create_only,
    {
        PrOptions {
            title,
            body,
            branch_name: None,
            base_branch: None,
            commit_msg: None,
            draft: false,
            token,
            create_only: false,
        }
    }

    /// Names the branch to create.
    pub fn with_branch_name(self, branch_name: String) -> (r: Self)
        ensures
            r == (PrOptions { branch_name: Some(branch_name), ..self }),
    {
        PrOptions { branch_name: Some(branch_name), ..self }
    }

    /// Names the branch the pull request targets.
    pub fn with_base_branch(self, base_branch: String) -> (r: Self)
        ensures
            r == (PrOptions { base_branch: Some(base_branch), ..self }),
    {
        PrOptions { base_branch: Some(base_branch), ..self }
    }

    /// Sets the commit message.
    pub fn with_commit_message(self, commit_msg: String) -> (r: Self)
        ensures
            r == (PrOptions { commit_msg: Some(commit_msg), ..self }),
    {
        PrOptions { commit_msg: Some(commit_msg), ..self }
    }

    /// Marks the pull request a draft.
    pub fn as_draft(self) -> (r: Self)
        ensures
            r == (PrOptions { draft: true, ..self }),
    {
        PrOptions { draft: true, ..self }
    }

    /// Commits on a branch without pushing or opening a pull request.
    pub fn create_only(self) -> (r: Self)
        ensures
            r == (PrOptions { create_only: true, ..self }),
    {
        PrOptions { create_only: true, ..self }
    }
}

/// What can go wrong between this library and the REST endpoint.
#[derive(Debug)]
pub enum GitHubError {
    /// The endpoint answered with an error; its text.
    ApiError(String),
    /// No usable token.
    AuthError,
    /// The request never got an answer; the transport's text.
    NetworkError(String),
    /// A remote URL of no recognized shape; the URL.
    ParseError(String),
}

/// The error as one line of text, as the console shows it.
pub open spec fn github_error_message(e: GitHubError) -> Seq<char> {
    match e {
        GitHubError::ApiError(m) => "GitHub API error: "@ + m@,
        GitHubError::AuthError => "GitHub authentication error"@,
        GitHubError::NetworkError(m) => "Network error: "@ + m@,
        GitHubError::ParseError(m) => "Parse error: "@ + m@,
    }
}

impl GitHubError {
    /// Renders the error as one line of text.
    pub fn message(&self) -> (r: String)
        ensures
            r@ == github_error_message(*self),
    {
        match self {
            GitHubError::ApiError(m) => str_concat("GitHub API error: ", m.as_str()),
            GitHubError::AuthError => String::from_str("GitHub authentication error"),
            GitHubError::NetworkError(m) => str_concat("Network error: ", m.as_str()),
            GitHubError::ParseError(m) => str_concat("Parse error: ", m.as_str()),
        }
    }
}

/// A repository as the endpoint describes one.
pub struct GitHubRepo {
    pub id: u64,
    pub name: String,
    pub full_name: String,
    pub html_url: String,
    pub clone_url: String,
    pub default_branch: String,
}

/// A user as the endpoint describes one.
pub struct User {
    pub id: u64,
    pub login: String,
    pub html_url: String,
}

/// A pull request as the endpoint answers with one.
pub struct PullRequest {
    pub id: u64,
    pub number: u64,
    pub title: String,
    pub body: Option<String>,
    pub html_url: String,
    pub state: String,
    pub user: User,
}

} // verus!
