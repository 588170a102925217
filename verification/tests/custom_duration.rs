use backup_rsync::custom_duration::CustomDuration;
use backup_rsync::sync_error::SyncError;
use chrono::Duration;

#[test]
fn convert_duration_1() {
    let test = CustomDuration::minutes(2).to_millis().unwrap();
    assert_eq!(Duration::minutes(2), Duration::milliseconds(test));
}

#[test]
fn convert_duration_2() {
    let test = CustomDuration::hours(1).to_millis().unwrap();
    assert_eq!(Duration::hours(1), Duration::milliseconds(test));
}

#[test]
fn convert_duration_3() {
    let test = CustomDuration::days(4).to_millis().unwrap();
    assert_eq!(Duration::days(4), Duration::milliseconds(test));
}

#[test]
fn convert_duration_4() {
    let test = CustomDuration::weeks(5).to_millis().unwrap();
    assert_eq!(Duration::weeks(5), Duration::milliseconds(test));
}

#[test]
fn convert_duration_exact_values() {
    assert_eq!(CustomDuration::minutes(2).to_millis().unwrap(), 120_000);
    assert_eq!(CustomDuration::hours(1).to_millis().unwrap(), 3_600_000);
    assert_eq!(CustomDuration::days(4).to_millis().unwrap(), 345_600_000);
    assert_eq!(CustomDuration::weeks(5).to_millis().unwrap(), 3_024_000_000);
}

#[test]
fn convert_duration_combined_components() {
    let window = CustomDuration {
        minutes: Some(30),
        hours: Some(1),
        days: None,
        weeks: None,
    };
    assert_eq!(window.to_millis().unwrap(), 30 * 60_000 + 3_600_000);
}

#[test]
fn convert_duration_overflow_is_an_error() {
    let res = CustomDuration::minutes(i64::MAX).to_millis();
    match res {
        Err(SyncError::DurationConversionError) => {}
        other => panic!("expected DurationConversionError, got {:?}", other),
    }
}
