use chrono::TimeZone;
use reservation::time::{
    get_time_range, timestamp_to_utc_time, utc_time_to_timestamp, vlidate_time_range,
};
use reservation::{Timestamp, UtcDateTime};

#[test]
fn vlidate_time_range_should_work() {
    let start = Timestamp { seconds: 1, nanos: 0 };
    let end = Timestamp { seconds: 2, nanos: 0 };
    assert!(vlidate_time_range(Some(&start), Some(&end)).is_ok());
}

#[test]
fn vlidate_time_range_should_reject_invalid_range() {
    let start = Timestamp { seconds: 2, nanos: 0 };
    let end = Timestamp { seconds: 1, nanos: 0 };
    assert!(vlidate_time_range(Some(&start), Some(&end)).is_err());
}

#[test]
fn vlidate_time_range_should_reject_missing_bounds() {
    let end = Timestamp { seconds: 1, nanos: 0 };
    assert!(vlidate_time_range(None, Some(&end)).is_err());
    assert!(vlidate_time_range(Some(&end), None).is_err());
    assert!(vlidate_time_range(None, None).is_err());
}

#[test]
fn get_time_range_should_work() {
    let start = Timestamp { seconds: 1, nanos: 0 };
    let end = Timestamp { seconds: 2, nanos: 0 };
    let range = get_time_range(Some(&start), Some(&end));
    assert_eq!(range.start, timestamp_to_utc_time(&start));
    assert_eq!(range.end, timestamp_to_utc_time(&end));
}

#[test]
fn test_timestamp_to_utc_time() {
    let ts = Timestamp {
        seconds: 1735689600, // 2025-01-01T00:00:00Z
        nanos: 0,
    };
    let dt = timestamp_to_utc_time(&ts);
    let expected = chrono::Utc.with_ymd_and_hms(2025, 1, 1, 0, 0, 0).unwrap();
    assert_eq!(dt.seconds, expected.timestamp());
    assert_eq!(dt.nanos, expected.timestamp_subsec_nanos());
}

#[test]
fn test_utc_time_to_timestamp() {
    let expected = chrono::Utc.with_ymd_and_hms(2025, 1, 1, 0, 0, 0).unwrap();
    let dt = UtcDateTime { seconds: expected.timestamp(), nanos: 0 };
    let ts = utc_time_to_timestamp(dt);
    assert_eq!(ts.seconds, 1735689600);
    assert_eq!(ts.nanos, 0);
}

#[test]
fn timestamp_round_trip_preserves_seconds_and_nanos() {
    let ts = Timestamp { seconds: 1735689600, nanos: 123_456_789 };
    let back = utc_time_to_timestamp(timestamp_to_utc_time(&ts));
    assert_eq!(back.seconds, ts.seconds);
    assert_eq!(back.nanos, ts.nanos);
}
