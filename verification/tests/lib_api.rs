use backup_rsync::command_runner::ScriptedRunner;
use backup_rsync::{SshCredentials, Sync};

fn creds() -> SshCredentials {
    SshCredentials {
        user: "ssh_user".to_string(),
        id_file: "ssh_id_file".to_string(),
        host: "host".to_string(),
    }
}

fn svec(items: &[&str]) -> Vec<String> {
    items.iter().map(|s| s.to_string()).collect()
}

fn ts(s: &str) -> i64 {
    chrono::DateTime::parse_from_rfc3339(s).unwrap().timestamp_millis()
}

#[test]
fn lib_sync_backup() {
    let runner = ScriptedRunner::new(vec![Ok("ok".to_string())]);
    let mut sync = Sync::new(runner);

    sync.sync_backup(&creds(), "exclude_file", "source", "destination", "log_file")
        .unwrap();

    assert_eq!(sync.runner.calls().len(), 1);
    assert_eq!(sync.runner.calls()[0].program, "rsync");
    assert_eq!(
        sync.runner.calls()[0].args,
        svec(&[
            "-ave",
            "ssh -l ssh_user -i ssh_id_file",
            "--compress",
            "--one-file-system",
            "--exclude-from=exclude_file",
            "--delete-after",
            "--delete-excluded",
            "source",
            "ssh_user@host:destination",
            ">",
            "log_file",
        ])
    );
}

#[test]
fn lib_create_snapshot() {
    let runner = ScriptedRunner::new(vec![Ok("ok".to_string())]);
    let mut sync = Sync::new(runner);

    sync.create_snapshot(&creds(), "backup_path", "snapshot_path").unwrap();

    assert_eq!(sync.runner.calls().len(), 1);
    assert_eq!(sync.runner.calls()[0].program, "ssh");
    assert_eq!(
        sync.runner.calls()[0].args,
        svec(&[
            "-l",
            "ssh_user",
            "-i",
            "ssh_id_file",
            "host",
            "cp",
            "-al",
            "backup_path",
            "snapshot_path",
        ])
    );
}

#[test]
fn lib_get_snapshots() {
    let runner = ScriptedRunner::new(vec![Ok(
        "2022-11-02T21:22:10+01:00_test1\n2022-11-01T21:22:10+01:00_test2\n".to_string(),
    )]);
    let mut sync = Sync::new(runner);

    let res = sync.get_snapshots(&creds(), "snapshot_path").unwrap();

    assert_eq!(sync.runner.calls().len(), 1);
    assert_eq!(sync.runner.calls()[0].program, "ssh");
    assert_eq!(
        sync.runner.calls()[0].args,
        svec(&["-l", "ssh_user", "-i", "ssh_id_file", "host", "ls", "-A1", "snapshot_path"])
    );
    assert_eq!(
        res,
        vec![
            (
                ts("2022-11-02T21:22:10+01:00"),
                "2022-11-02T21:22:10+01:00_test1".to_string()
            ),
            (
                ts("2022-11-01T21:22:10+01:00"),
                "2022-11-01T21:22:10+01:00_test2".to_string()
            ),
        ]
    );
}

#[test]
fn lib_delete_snapshot() {
    let runner = ScriptedRunner::new(vec![Ok("".to_string())]);
    let mut sync = Sync::new(runner);

    sync.delete_snapshot(&creds(), "snapshot_path").unwrap();

    assert_eq!(sync.runner.calls().len(), 1);
    assert_eq!(sync.runner.calls()[0].program, "ssh");
    assert_eq!(
        sync.runner.calls()[0].args,
        svec(&["-l", "ssh_user", "-i", "ssh_id_file", "host", "rm", "-r", "snapshot_path"])
    );
}
