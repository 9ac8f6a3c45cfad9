//! Per-repository command execution: the run's preconditions and outcome,
//! the transcript of its two output streams, and the timestamps that name
//! and head transcripts.

pub mod run;
pub mod timestamp;
pub mod transcript;

pub use run::RunError;
pub use run::RunSetup;
pub use run::finish_run;
pub use run::log_file_name;
pub use run::start_run;
pub use timestamp::Timestamp;
pub use transcript::Transcript;
pub use transcript::console_line;
