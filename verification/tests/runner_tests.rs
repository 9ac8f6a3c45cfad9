use rrepos::config::Repository;
use rrepos::runner::RunError;
use rrepos::runner::Timestamp;
use rrepos::runner::Transcript;
use rrepos::runner::console_line;
use rrepos::runner::finish_run;
use rrepos::runner::log_file_name;
use rrepos::runner::start_run;

fn sample_ts() -> Timestamp {
    Timestamp {
        year: 2024,
        month: 1,
        day: 2,
        hour: 3,
        minute: 4,
        second: 5,
    }
}

#[test]
fn test_timestamp_renderings() {
    let ts = sample_ts();
    assert_eq!(ts.compact(), "20240102_030405");
    assert_eq!(ts.rfc3339(), "2024-01-02T03:04:05+00:00");

    let ts2 = Timestamp {
        year: 999,
        month: 12,
        day: 31,
        hour: 23,
        minute: 59,
        second: 59,
    };
    assert_eq!(ts2.compact(), "09991231_235959");
    assert_eq!(ts2.rfc3339(), "0999-12-31T23:59:59+00:00");
}

#[test]
fn test_timestamp_from_parts() {
    let ts = Timestamp::from_parts(2024, 1, 2, 3, 4, 5).unwrap();
    assert_eq!(ts.year, 2024);
    assert_eq!(ts.month, 1);
    assert_eq!(ts.day, 2);
    assert_eq!(ts.hour, 3);
    assert_eq!(ts.minute, 4);
    assert_eq!(ts.second, 5);

    assert!(Timestamp::from_parts(-1, 1, 2, 3, 4, 5).is_none());
    assert!(Timestamp::from_parts(10000, 1, 2, 3, 4, 5).is_none());
    assert!(Timestamp::from_parts(0, 1, 1, 0, 0, 0).is_some());
    assert!(Timestamp::from_parts(9999, 12, 31, 23, 59, 59).is_some());
}

#[test]
fn test_timestamp_now_in_range() {
    let ts = Timestamp::now().unwrap();
    assert!(1 <= ts.month && ts.month <= 12);
    assert!(1 <= ts.day && ts.day <= 31);
    assert!(ts.hour <= 23 && ts.minute <= 59 && ts.second <= 59);
}

#[test]
fn test_log_file_name() {
    let name = log_file_name("logs", "repo1", &sample_ts());
    assert_eq!(name, "logs/repo1_20240102_030405.log");
}

#[test]
fn test_log_file_names_distinct_per_second() {
    let mut later = sample_ts();
    later.second = 6;
    let a = log_file_name("logs", "repo1", &sample_ts());
    let b = log_file_name("logs", "repo1", &later);
    assert_ne!(a, b);
}

#[test]
fn test_fresh_transcript_is_header_only() {
    let t = Transcript::new("repo1", "true", "/tmp/repo1", &sample_ts());
    let lines = t.lines();
    assert_eq!(lines.len(), 6);
    assert_eq!(lines[0], "Repository: repo1");
    assert_eq!(lines[1], "Command: true");
    assert_eq!(lines[2], "Directory: /tmp/repo1");
    assert_eq!(lines[3], "Timestamp: 2024-01-02T03:04:05+00:00");
    assert_eq!(lines[4], "");
    assert_eq!(lines[5], "=== STDOUT ===");
    assert!(!t.stderr_seen());
    assert!(!lines.iter().any(|l| l == "=== STDERR ==="));
}

#[test]
fn test_stdout_only_capture() {
    let mut t = Transcript::new("repo1", "echo", "/tmp/repo1", &sample_ts());
    let c1 = t.log_stdout_line("one");
    let c2 = t.log_stdout_line("two");
    let c3 = t.log_stdout_line("three");
    assert_eq!(c1, "repo1 | one");
    assert_eq!(c2, "repo1 | two");
    assert_eq!(c3, "repo1 | three");

    let lines = t.lines();
    assert_eq!(lines.len(), 9);
    assert_eq!(lines[6], "repo1 | one");
    assert_eq!(lines[7], "repo1 | two");
    assert_eq!(lines[8], "repo1 | three");
    assert!(!lines.iter().any(|l| l == "=== STDERR ==="));
}

#[test]
fn test_stderr_marker_written_once_before_first_stderr_line() {
    let mut t = Transcript::new("repo1", "build", "/tmp/repo1", &sample_ts());
    t.log_stdout_line("compiling");
    let first_err = t.log_stderr_line("warning: odd");
    assert_eq!(first_err, vec!["", "=== STDERR ===", "repo1 | warning: odd"]);
    t.log_stdout_line("done");
    let second_err = t.log_stderr_line("error: bad");
    assert_eq!(second_err, vec!["repo1 | error: bad"]);

    let lines = t.lines();
    let marker_count = lines.iter().filter(|l| *l == "=== STDERR ===").count();
    assert_eq!(marker_count, 1);

    let marker_pos = lines.iter().position(|l| l == "=== STDERR ===").unwrap();
    let first_err_pos = lines.iter().position(|l| l == "repo1 | warning: odd").unwrap();
    assert_eq!(marker_pos + 1, first_err_pos);
    assert!(t.stderr_seen());
}

#[test]
fn test_console_line() {
    assert_eq!(console_line("repo1", "hello"), "repo1 | hello");
}

#[test]
fn test_run_against_missing_directory() {
    let mut repo = Repository::new(
        "repo1".to_string(),
        "git@github.com:owner/repo1.git".to_string(),
    );
    repo.path = Some("/nonexistent/place".to_string());
    let r = start_run(&repo, "true", "/cwd", false, Some("logs"), &sample_ts());
    match r {
        Err(RunError::DirectoryMissing(d)) => assert_eq!(d, "/nonexistent/place"),
        _ => panic!("a missing directory must fail the run before anything else"),
    }
}

#[test]
fn test_run_setup_with_logging() {
    let mut repo = Repository::new(
        "repo1".to_string(),
        "git@github.com:owner/repo1.git".to_string(),
    );
    repo.path = Some("/tmp".to_string());
    let setup = start_run(&repo, "true", "/cwd", true, Some("logs"), &sample_ts()).unwrap();
    assert_eq!(setup.target_dir, "/tmp");
    assert_eq!(setup.log_path.unwrap(), "logs/repo1_20240102_030405.log");
    let transcript = setup.transcript.unwrap();
    assert_eq!(transcript.lines().len(), 6);
    assert_eq!(transcript.lines()[0], "Repository: repo1");
}

#[test]
fn test_run_setup_without_logging_creates_no_transcript() {
    let repo = Repository::new(
        "repo1".to_string(),
        "git@github.com:owner/repo1.git".to_string(),
    );
    let setup = start_run(&repo, "true", "/cwd", true, None, &sample_ts()).unwrap();
    assert!(setup.transcript.is_none());
    assert!(setup.log_path.is_none());
}

#[test]
fn test_finish_run_outcomes() {
    assert!(finish_run(true, Some(0)).is_ok());
    assert!(matches!(
        finish_run(false, Some(2)),
        Err(RunError::ExitCode(2))
    ));
    assert!(matches!(
        finish_run(false, None),
        Err(RunError::ExitCode(-1))
    ));
}

#[test]
fn test_two_runs_two_distinct_transcripts() {
    let first = sample_ts();
    let mut second = sample_ts();
    second.minute = 5;

    let t1 = Transcript::new("repo1", "true", "/tmp/repo1", &first);
    let t2 = Transcript::new("repo1", "true", "/tmp/repo1", &second);
    let n1 = log_file_name("logs", "repo1", &first);
    let n2 = log_file_name("logs", "repo1", &second);

    assert_ne!(n1, n2);
    assert_eq!(t1.lines().len(), 6);
    assert_eq!(t2.lines().len(), 6);
    assert!(!t1.lines().iter().any(|l| l == "=== STDERR ==="));
    assert!(!t2.lines().iter().any(|l| l == "=== STDERR ==="));
}
