//! Bulk operations across a declared set of git repositories: a repository
//! catalog with tag/name filtering, per-repository command execution with a
//! persisted transcript, batch outcome aggregation, and the pull-request
//! workflow's decisions.

pub mod config;
pub mod dispatch;
pub mod gitcmd;
pub mod github;
pub mod runner;
pub mod strutil;
pub mod util;

pub use config::Config;
pub use config::Repository;
pub use dispatch::BatchResult;
pub use dispatch::CommandContext;
pub use github::PrOptions;
