use backup_rsync::codec;
use backup_rsync::sync_error::{ExecFailure, SyncError};

fn ts(s: &str) -> i64 {
    chrono::DateTime::parse_from_rfc3339(s).unwrap().timestamp_millis()
}

#[test]
fn snapshot_name_has_the_wire_format() {
    let name = codec::format_snapshot_name(ts("2022-11-02T21:22:10Z"), "test1");
    assert_eq!(name, "2022-11-02T21:22:10Z_test1");
}

#[test]
fn snapshot_name_truncates_subseconds() {
    let name = codec::format_snapshot_name(1_500, "nightly");
    assert_eq!(name, "1970-01-01T00:00:01Z_nightly");
}

#[test]
fn naming_is_deterministic() {
    let a = codec::format_snapshot_name(ts("2022-11-02T21:22:10Z"), "nightly");
    let b = codec::format_snapshot_name(ts("2022-11-02T21:22:10Z"), "nightly");
    assert_eq!(a, b);
}

#[test]
fn parse_snapshot_name_reads_the_prefix() {
    let res = codec::parse_snapshot_name("2022-11-02T21:22:10Z_test1").unwrap();
    assert_eq!(res, ts("2022-11-02T21:22:10Z"));
}

#[test]
fn parse_snapshot_name_keeps_offsets() {
    let res = codec::parse_snapshot_name("2022-11-02T21:22:10+01:00_test1").unwrap();
    assert_eq!(res, ts("2022-11-02T21:22:10+01:00"));
}

#[test]
fn parse_snapshot_name_rejects_garbage() {
    let res = codec::parse_snapshot_name("garbage");
    match res {
        Err(SyncError::TimestampParseError) => {}
        other => panic!("expected TimestampParseError, got {:?}", other),
    }
}

#[test]
fn split_keeps_empty_segments() {
    let parts = codec::split_str("a\nb\n", '\n');
    assert_eq!(parts, vec!["a".to_string(), "b".to_string(), "".to_string()]);
}

#[test]
fn split_of_empty_is_one_empty_segment() {
    let parts = codec::split_str("", '\n');
    assert_eq!(parts, vec!["".to_string()]);
}

#[test]
fn listing_parse_keeps_order() {
    let entries = codec::parse_listing("2022-11-02T21:22:10Z_test1\n2022-11-01T21:22:10Z_test2\n");
    assert_eq!(
        entries,
        vec![
            (ts("2022-11-02T21:22:10Z"), "2022-11-02T21:22:10Z_test1".to_string()),
            (ts("2022-11-01T21:22:10Z"), "2022-11-01T21:22:10Z_test2".to_string()),
        ]
    );
}

#[test]
fn listing_parse_drops_garbage_silently() {
    let entries = codec::parse_listing("garbage\n2022-11-01T21:22:10Z_test2\n");
    assert_eq!(
        entries,
        vec![(ts("2022-11-01T21:22:10Z"), "2022-11-01T21:22:10Z_test2".to_string())]
    );
}

#[test]
fn error_messages_name_the_failure() {
    assert_eq!(
        SyncError::PathDeletionError("/".to_string()).message(),
        "path deletion error (/)"
    );
    assert_eq!(
        SyncError::PathConversionError("source".to_string()).message(),
        "error converting path to string (source)"
    );
    assert_eq!(SyncError::SplitError.message(), "split error");
    assert_eq!(
        SyncError::DurationConversionError.message(),
        "duration conversion error"
    );
    assert_eq!(
        SyncError::TimestampParseError.message(),
        "timestamp parse error"
    );
    assert_eq!(
        SyncError::ExecError(ExecFailure { message: "exit 1".to_string() }).message(),
        "exit 1"
    );
}
