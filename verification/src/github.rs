//! The pull-request workflow's verifiable parts: bearer-token handling,
//! request parameters, remote-URL parsing, and the decisions of the
//! workflow itself. The REST call these feed is outside the library.

pub mod auth;
pub mod client;
pub mod types;
pub mod workflow;

pub use auth::GitHubAuth;
pub use client::GitHubClient;
pub use types::GitHubError;
pub use types::PrOptions;
pub use types::PullRequestParams;
pub use workflow::create_pull_request_plan;
pub use workflow::parse_github_url;
