//! The repository catalog: repository declarations, a builder for them,
//! catalog-wide filtering, and validation.

pub mod builder;
pub mod loader;
pub mod repository;
pub mod validation;

pub use builder::RepositoryBuilder;
pub use loader::Config;
pub use repository::Repository;
pub use validation::ConfigValidator;
