use backup_rsync::command_runner::ScriptedRunner;
use backup_rsync::config::Config;
use backup_rsync::custom_duration::CustomDuration;
use backup_rsync::retention::{FixedSetEvaluator, RetentionEvaluator};
use backup_rsync::ssh_credentials::SshCredentials;
use backup_rsync::sync::Sync;
use backup_rsync::sync_error::{ExecFailure, SyncError};

fn svec(items: &[&str]) -> Vec<String> {
    items.iter().map(|s| s.to_string()).collect()
}

fn ts(s: &str) -> i64 {
    chrono::DateTime::parse_from_rfc3339(s).unwrap().timestamp_millis()
}

fn config() -> Config {
    Config {
        source: "source".to_string(),
        destination: "destination".to_string(),
        exclude_file: "exclude_file".to_string(),
        log_file: "log_file".to_string(),
        ssh_credentials: SshCredentials {
            host: "host".to_string(),
            id_file: "id_file".to_string(),
            user: "user".to_string(),
        },
        snapshot: "snapshot".to_string(),
        snapshot_suffix: "test_user".to_string(),
        policy: vec![CustomDuration::minutes(30), CustomDuration::days(2)],
    }
}

const LISTING: &str = "2022-11-01T12:00:00Z_test_user\n2022-11-01T13:00:00Z_test_user\n2022-11-01T14:00:00Z_test_user\n2022-11-01T15:00:00Z_test_user";

#[test]
fn execute() {
    let now = ts("2022-11-01T16:00:00Z");
    let snapshot = format!(
        "snapshot/{}_test_user",
        chrono::DateTime::from_timestamp_millis(now)
            .unwrap()
            .to_rfc3339_opts(chrono::SecondsFormat::Secs, true)
    );
    let runner = ScriptedRunner::new(vec![
        Ok(String::new()),
        Ok(String::new()),
        Ok(LISTING.to_string()),
        Ok(String::new()),
    ]);
    let evaluator = FixedSetEvaluator::new(vec![(
        ts("2022-11-01T12:00:00Z"),
        "2022-11-01T12:00:00Z_test_user".to_string(),
    )]);
    let mut sync = Sync::new_with_exec(config(), runner, evaluator);

    sync.execute_with_time(now).expect("failed to execute");

    let calls = sync.runner.calls();
    assert_eq!(calls.len(), 4);

    assert_eq!(calls[0].program, "rsync");
    assert_eq!(
        calls[0].args,
        svec(&[
            "-ave",
            "ssh -l user -i id_file",
            "--compress",
            "--one-file-system",
            "--exclude-from=exclude_file",
            "--delete-after",
            "--delete-excluded",
            "source",
            "user@host:destination",
            ">",
            "log_file",
        ])
    );

    assert_eq!(calls[1].program, "ssh");
    assert_eq!(
        calls[1].args,
        svec(&["-l", "user", "-i", "id_file", "host", "cp", "-al", "destination", &snapshot])
    );

    assert_eq!(calls[2].program, "ssh");
    assert_eq!(
        calls[2].args,
        svec(&["-l", "user", "-i", "id_file", "host", "ls", "-A1", "snapshot"])
    );

    assert_eq!(calls[3].program, "ssh");
    assert_eq!(
        calls[3].args,
        svec(&[
            "-l",
            "user",
            "-i",
            "id_file",
            "host",
            "rm",
            "-r",
            "snapshot/2022-11-01T12:00:00Z_test_user",
        ])
    );
}

#[test]
fn execute_with_current_time() {
    let runner = ScriptedRunner::new(vec![
        Ok(String::new()),
        Ok(String::new()),
        Ok(String::new()),
    ]);
    let evaluator = FixedSetEvaluator::new(vec![]);
    let mut sync = Sync::new_with_exec(config(), runner, evaluator);

    sync.execute().expect("failed to execute");

    let calls = sync.runner.calls();
    assert_eq!(calls.len(), 3);
    assert_eq!(calls[0].program, "rsync");
    assert_eq!(calls[1].program, "ssh");
    assert_eq!(calls[2].program, "ssh");
}

#[test]
fn execute_aborts_on_sync_failure() {
    let runner = ScriptedRunner::new(vec![Err(ExecFailure {
        message: "rsync failed".to_string(),
    })]);
    let evaluator = FixedSetEvaluator::new(vec![]);
    let mut sync = Sync::new_with_exec(config(), runner, evaluator);

    let res = sync.execute_with_time(ts("2022-11-01T16:00:00Z"));

    assert_eq!(sync.runner.calls().len(), 1);
    match res {
        Err(SyncError::ExecError(f)) => assert_eq!(f.message, "rsync failed"),
        other => panic!("expected ExecError, got {:?}", other),
    }
}

#[test]
fn execute_aborts_on_failed_deletion() {
    let runner = ScriptedRunner::new(vec![
        Ok(String::new()),
        Ok(String::new()),
        Ok(LISTING.to_string()),
        Err(ExecFailure { message: "rm failed".to_string() }),
    ]);
    let evaluator = FixedSetEvaluator::new(vec![
        (
            ts("2022-11-01T12:00:00Z"),
            "2022-11-01T12:00:00Z_test_user".to_string(),
        ),
        (
            ts("2022-11-01T13:00:00Z"),
            "2022-11-01T13:00:00Z_test_user".to_string(),
        ),
    ]);
    let mut sync = Sync::new_with_exec(config(), runner, evaluator);

    let res = sync.execute_with_time(ts("2022-11-01T16:00:00Z"));

    // the first delete failed: the second was never attempted
    assert_eq!(sync.runner.calls().len(), 4);
    match res {
        Err(SyncError::ExecError(f)) => assert_eq!(f.message, "rm failed"),
        other => panic!("expected ExecError, got {:?}", other),
    }
}

#[test]
fn execute_aborts_on_window_overflow_before_any_deletion() {
    let mut cfg = config();
    cfg.policy = vec![CustomDuration::minutes(i64::MAX)];
    let runner = ScriptedRunner::new(vec![
        Ok(String::new()),
        Ok(String::new()),
        Ok(LISTING.to_string()),
        Ok(String::new()),
    ]);
    let evaluator = FixedSetEvaluator::new(vec![(
        ts("2022-11-01T12:00:00Z"),
        "2022-11-01T12:00:00Z_test_user".to_string(),
    )]);
    let mut sync = Sync::new_with_exec(cfg, runner, evaluator);

    let res = sync.execute_with_time(ts("2022-11-01T16:00:00Z"));

    // sync, snapshot and listing ran; no delete was issued
    assert_eq!(sync.runner.calls().len(), 3);
    match res {
        Err(SyncError::DurationConversionError) => {}
        other => panic!("expected DurationConversionError, got {:?}", other),
    }
}

#[test]
fn execute_fails_when_script_is_exhausted() {
    let runner = ScriptedRunner::new(vec![
        Ok(String::new()),
        Ok(String::new()),
        Ok(LISTING.to_string()),
    ]);
    let evaluator = FixedSetEvaluator::new(vec![(
        ts("2022-11-01T12:00:00Z"),
        "2022-11-01T12:00:00Z_test_user".to_string(),
    )]);
    let mut sync = Sync::new_with_exec(config(), runner, evaluator);

    let res = sync.execute_with_time(ts("2022-11-01T16:00:00Z"));

    assert_eq!(sync.runner.calls().len(), 4);
    match res {
        Err(SyncError::ExecError(f)) => assert_eq!(f.message, "script exhausted"),
        other => panic!("expected ExecError, got {:?}", other),
    }
}

#[test]
fn evaluator_marks_only_existing_snapshots() {
    let evaluator = FixedSetEvaluator::new(vec![
        (
            ts("2022-11-01T12:00:00Z"),
            "2022-11-01T12:00:00Z_test_user".to_string(),
        ),
        (ts("2022-11-03T12:00:00Z"), "absent".to_string()),
    ]);
    let snapshots = vec![
        (
            ts("2022-11-01T12:00:00Z"),
            "2022-11-01T12:00:00Z_test_user".to_string(),
        ),
        (
            ts("2022-11-01T13:00:00Z"),
            "2022-11-01T13:00:00Z_test_user".to_string(),
        ),
    ];

    let marked = evaluator.evaluate(ts("2022-11-01T16:00:00Z"), &vec![1_800_000], &snapshots);

    assert_eq!(
        marked,
        vec![(
            ts("2022-11-01T12:00:00Z"),
            "2022-11-01T12:00:00Z_test_user".to_string()
        )]
    );
}
