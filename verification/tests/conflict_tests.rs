use reservation::conflict::{parse_pg_datetime, ParsedInfo};
use reservation::{ReservationConflictInfo, ReservationWindow};

const ERR_MSG: &str = "Key (resource_id, timespan)=(room-114514, [\"2025-06-02 19:00:00+00\", \"2025-06-05 19:00:00+00\"]) conflects with existing key (resource_id, timespan)=(room-114514, [\"2025-06-01 19:00:00+00\", \"2025-06-03 19:00:00+00\"])).";

fn epoch_of(rfc3339: &str) -> i64 {
    chrono::DateTime::parse_from_rfc3339(rfc3339).unwrap().timestamp()
}

#[test]
fn parsed_info_should_work() {
    let parsed_info: ParsedInfo = ParsedInfo::parse(ERR_MSG).unwrap();
    assert_eq!(parsed_info.new.get("resource_id").unwrap().as_str(), "room-114514");
    assert_eq!(
        parsed_info.new.get("timespan").unwrap().as_str(),
        "\"2025-06-02 19:00:00+00\", \"2025-06-05 19:00:00+00\""
    );
    assert_eq!(parsed_info.old.get("resource_id").unwrap().as_str(), "room-114514");
    assert_eq!(
        parsed_info.old.get("timespan").unwrap().as_str(),
        "\"2025-06-01 19:00:00+00\", \"2025-06-03 19:00:00+00\""
    );
}

#[test]
fn parse_pg_str_to_datetime_should_work() {
    let datetime_str = "2025-06-02 19:00:00+00";
    let datetime = parse_pg_datetime(datetime_str).unwrap();
    assert_eq!(datetime.seconds, epoch_of("2025-06-02T19:00:00+00:00"));
    assert_eq!(datetime.nanos, 0);
}

#[test]
fn hashmap_to_reservation_window_should_work() {
    let parsed_info: ParsedInfo = ParsedInfo::parse(ERR_MSG).unwrap();
    let new_window: ReservationWindow = ReservationWindow::from_pairs(&parsed_info.new).unwrap();
    assert_eq!(new_window.rid.as_str(), "room-114514");
    assert_eq!(new_window.start.seconds, epoch_of("2025-06-02T19:00:00+00:00"));
    assert_eq!(new_window.end.seconds, epoch_of("2025-06-05T19:00:00+00:00"));

    let old_window: ReservationWindow = ReservationWindow::from_pairs(&parsed_info.old).unwrap();
    assert_eq!(old_window.rid.as_str(), "room-114514");
    assert_eq!(old_window.start.seconds, epoch_of("2025-06-01T19:00:00+00:00"));
    assert_eq!(old_window.end.seconds, epoch_of("2025-06-03T19:00:00+00:00"));
}

#[test]
fn conflict_error_message_should_parse() {
    let conflict = ReservationConflictInfo::parse(ERR_MSG);
    match conflict {
        ReservationConflictInfo::Parsed(conflict) => {
            assert_eq!(conflict.new.rid.as_str(), "room-114514");
            assert_eq!(conflict.new.start.seconds, epoch_of("2025-06-02T19:00:00+00:00"));
            assert_eq!(conflict.new.end.seconds, epoch_of("2025-06-05T19:00:00+00:00"));
            assert_eq!(conflict.old.rid.as_str(), "room-114514");
            assert_eq!(conflict.old.start.seconds, epoch_of("2025-06-01T19:00:00+00:00"));
            assert_eq!(conflict.old.end.seconds, epoch_of("2025-06-03T19:00:00+00:00"));
        }
        ReservationConflictInfo::Unparsed(_) => panic!("Expected parsed conflict info"),
    }
}

#[test]
fn empty_detail_stays_unparsed() {
    match ReservationConflictInfo::parse("") {
        ReservationConflictInfo::Unparsed(raw) => assert_eq!(raw.as_str(), ""),
        ReservationConflictInfo::Parsed(_) => panic!("empty detail must stay unparsed"),
    }
}

#[test]
fn prose_detail_stays_unparsed() {
    let s = "duplicate key value violates unique constraint \"reservations_pkey\"";
    match ReservationConflictInfo::parse(s) {
        ReservationConflictInfo::Unparsed(raw) => assert_eq!(raw.as_str(), s),
        ReservationConflictInfo::Parsed(_) => panic!("prose detail must stay unparsed"),
    }
}

#[test]
fn single_key_detail_stays_unparsed() {
    let s = "Key (resource_id, timespan)=(room-1, [\"2025-06-02 19:00:00+00\", \"2025-06-05 19:00:00+00\"]) rejected.";
    match ReservationConflictInfo::parse(s) {
        ReservationConflictInfo::Unparsed(_) => {}
        ReservationConflictInfo::Parsed(_) => panic!("one key is not a conflict"),
    }
}

#[test]
fn malformed_datetime_stays_unparsed() {
    let s = "Key (resource_id, timespan)=(r1, [\"not a date\", \"also wrong\"]) conflicts with existing key (resource_id, timespan)=(r1, [\"still\", \"wrong\"]).";
    match ReservationConflictInfo::parse(s) {
        ReservationConflictInfo::Unparsed(_) => {}
        ReservationConflictInfo::Parsed(_) => panic!("unparseable datetimes must degrade"),
    }
}

#[test]
fn pg_datetime_rejects_other_dialects() {
    assert!(parse_pg_datetime("2025-06-02T19:00:00Z").is_none());
    assert!(parse_pg_datetime("garbage").is_none());
    assert!(parse_pg_datetime("").is_none());
}

#[test]
fn pg_datetime_honors_offsets() {
    let with_offset = parse_pg_datetime("2025-06-01 12:00:00-07").unwrap();
    assert_eq!(with_offset.seconds, epoch_of("2025-06-01T12:00:00-07:00"));
}
