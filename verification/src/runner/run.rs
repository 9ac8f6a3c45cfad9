//! One command invocation against one repository: what is readied before
//! the child process is spawned, and how its exit becomes an outcome.
//! The runner's states are `Pending` (before `start_run`), `Running` (the
//! spawned child, its two streams feeding the transcript), and the outcome
//! that `finish_run` resolves.

use vstd::prelude::*;

use crate::config::repository::Repository;
use crate::config::repository::target_dir_spec;
use crate::runner::timestamp::Timestamp;
use crate::runner::timestamp::compact_spec;
use crate::runner::timestamp::lemma_compact_injective;
use crate::runner::timestamp::ts_valid;
use crate::runner::transcript::Transcript;
use crate::runner::transcript::fresh_transcript;
use crate::strutil::str_concat;

verus! {

/// Why one repository's run failed. A failure here never touches the other
/// repositories of a batch.
#[derive(Debug)]
pub enum RunError {
    /// The resolved directory does not exist; its path. Nothing was spawned
    /// and no transcript was created.
    DirectoryMissing(String),
    /// The child process could not be spawned; the launcher's words.
    Spawn(String),
    /// The child exited non-zero; its exit code, or -1 where it died
    /// without one.
    ExitCode(i32),
}

/// The transcript file's name: `<logDir>/<repoName>_<yyyyMMdd_HHmmss>.log`.
pub open spec fn log_file_name_spec(log_dir: Seq<char>, name: Seq<char>, ts: Timestamp) -> Seq<
    char,
> {
    log_dir + "/"@ + name + "_"@ + compact_spec(ts) + ".log"@
}

/// Renders the transcript file's name.
pub fn log_file_name(log_dir: &str, repo_name: &str, ts: &Timestamp) -> (r: String)
    requires
        ts_valid(*ts),
    ensures
        r@ == log_file_name_spec(log_dir@, repo_name@, *ts),
{
    let mut s = str_concat(log_dir, "/");
    let compact = ts.compact();
    s.append(repo_name);
    s.append("_");
    s.append(compact.as_str());
    s.append(".log");
    proof {
        reveal_strlit("_");
        assert("_"@ =~= seq!['_']);
        assert(s@ =~= log_file_name_spec(log_dir@, repo_name@, *ts));
    }
    s
}

/// What stands ready when a run may proceed: the directory the child runs
/// in, and — when logging was requested — the fresh transcript and the file
/// it is persisted to.
pub struct RunSetup {
    pub target_dir: String,
    pub transcript: Option<Transcript>,
    pub log_path: Option<String>,
}

/// The checks and preparations before any child process is spawned: the
/// resolved directory (`fallback_dir` standing in for an unknown catalog
/// directory) must exist, or the run fails at once with `DirectoryMissing`
/// and no transcript is created; with a log directory the transcript
/// starts with its header block, destined for a file named after the
/// repository and the starting moment.
pub fn start_run(
    repo: &Repository,
    command: &str,
    fallback_dir: &str,
    dir_exists: bool,
    log_dir: Option<&str>,
    ts: &Timestamp,
) -> (r: Result<RunSetup, RunError>)
    requires
        ts_valid(*ts),
    ensures
        match r {
            Ok(s) => {
                &&& dir_exists
                &&& s.target_dir@ == target_dir_spec(repo@, fallback_dir@)
                &&& match log_dir {
                    Some(d) => (s.transcript matches Some(t) && t@ == fresh_transcript(
                        repo@.name,
                        command@,
                        target_dir_spec(repo@, fallback_dir@),
                        *ts,
                    )) && (s.log_path matches Some(p) && p@ == log_file_name_spec(
                        d@,
                        repo@.name,
                        *ts,
                    )),
                    None => s.transcript is None && s.log_path is None,
                }
            },
            Err(RunError::DirectoryMissing(d)) => !dir_exists && d@ == target_dir_spec(
                repo@,
                fallback_dir@,
            ),
            Err(_) => false,
        },
{
    let target_dir = repo.get_target_dir(fallback_dir);
    if !dir_exists {
        return Err(RunError::DirectoryMissing(target_dir));
    }
    match log_dir {
        Some(d) => {
            let transcript = Transcript::new(
                repo.name.as_str(),
                command,
                target_dir.as_str(),
                ts,
            );
            let log_path = log_file_name(d, repo.name.as_str(), ts);
            Ok(RunSetup { target_dir, transcript: Some(transcript), log_path: Some(log_path) })
        },
        None => Ok(RunSetup { target_dir, transcript: None, log_path: None }),
    }
}

/// The outcome of the child's exit, resolved only after both stream pumps
/// saw end-of-stream: status 0 succeeds; a non-zero code fails with that
/// code; a death without a code fails with -1.
pub fn finish_run(status_ok: bool, code: Option<i32>) -> (r: Result<(), RunError>)
    ensures
        status_ok <==> r is Ok,
        !status_ok ==> r == Err::<(), RunError>(
            RunError::ExitCode(
                match code {
                    Some(c) => c,
                    None => -1i32,
                },
            ),
        ),
{
    if status_ok {
        Ok(())
    } else {
        match code {
            Some(c) => Err(RunError::ExitCode(c)),
            None => Err(RunError::ExitCode(-1)),
        }
    }
}

/// Runs at two different moments persist to two different transcript
/// files: the timestamp in the name is rendered digit for digit.
#[verifier::rlimit(50)]
pub proof fn lemma_log_file_names_differ(
    log_dir: Seq<char>,
    name: Seq<char>,
    t1: Timestamp,
    t2: Timestamp,
)
    requires
        ts_valid(t1),
        ts_valid(t2),
        t1 != t2,
    ensures
        log_file_name_spec(log_dir, name, t1) != log_file_name_spec(log_dir, name, t2),
{
    reveal_strlit("/");
    reveal_strlit("_");
    reveal_strlit(".log");
    let a = log_file_name_spec(log_dir, name, t1);
    let b = log_file_name_spec(log_dir, name, t2);
    let head = log_dir.len() as int + 1 + name.len() as int + 1;
    let c1 = compact_spec(t1);
    let c2 = compact_spec(t2);
    assert(c1.len() == 15);
    assert(c2.len() == 15);
    if a == b {
        assert forall|i: int| 0 <= i < 15 implies c1[i] == c2[i] by {
            assert(a[head + i] == c1[i]);
            assert(b[head + i] == c2[i]);
        }
        assert(c1 =~= c2);
        lemma_compact_injective(t1, t2);
        assert(false);
    }
}

} // verus!
