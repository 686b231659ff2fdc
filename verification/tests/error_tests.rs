use reservation::error::{classify_storage_failure, StorageFailure};
use reservation::ids::is_valid_reservation_id;
use reservation::{Error, ReservationConflictInfo};

const DETAIL: &str = "Key (resource_id, timespan)=(room-114514, [\"2025-06-02 19:00:00+00\", \"2025-06-05 19:00:00+00\"]) conflicts with existing key (resource_id, timespan)=(room-114514, [\"2025-06-01 19:00:00+00\", \"2025-06-03 19:00:00+00\"]).";

#[test]
fn exclusion_violation_becomes_parsed_conflict() {
    let failure = StorageFailure::Database {
        code: "23P01".to_owned(),
        schema: Some("rsvp".to_owned()),
        table: Some("reservations".to_owned()),
        detail: Some(DETAIL.to_owned()),
        description: "conflicting key value".to_owned(),
    };
    match classify_storage_failure(failure) {
        Error::ConflictReservation(ReservationConflictInfo::Parsed(c)) => {
            assert_eq!(c.new.rid, "room-114514");
            assert_eq!(c.old.rid, "room-114514");
        }
        other => panic!("expected a parsed conflict, got {:?}", other),
    }
}

#[test]
fn other_database_failures_are_wrapped() {
    let failure = StorageFailure::Database {
        code: "23505".to_owned(),
        schema: Some("rsvp".to_owned()),
        table: Some("reservations".to_owned()),
        detail: None,
        description: "duplicate key".to_owned(),
    };
    match classify_storage_failure(failure) {
        Error::DatabaseError(d) => assert_eq!(d, "duplicate key"),
        other => panic!("expected a wrapped failure, got {:?}", other),
    }
}

#[test]
fn wrong_table_is_not_a_conflict() {
    let failure = StorageFailure::Database {
        code: "23P01".to_owned(),
        schema: Some("rsvp".to_owned()),
        table: Some("users".to_owned()),
        detail: Some(DETAIL.to_owned()),
        description: "exclusion elsewhere".to_owned(),
    };
    assert!(matches!(classify_storage_failure(failure), Error::DatabaseError(_)));
}

#[test]
fn missing_row_becomes_not_found() {
    assert_eq!(classify_storage_failure(StorageFailure::RowNotFound), Error::NotFound);
}

#[test]
fn other_failures_are_wrapped_verbatim() {
    let failure = StorageFailure::Other { description: "connection reset".to_owned() };
    match classify_storage_failure(failure) {
        Error::DatabaseError(d) => assert_eq!(d, "connection reset"),
        other => panic!("expected a wrapped failure, got {:?}", other),
    }
}

#[test]
fn database_errors_compare_by_kind_alone() {
    assert_eq!(
        Error::DatabaseError("one".to_owned()),
        Error::DatabaseError("another".to_owned())
    );
    assert_ne!(Error::DatabaseError("one".to_owned()), Error::NotFound);
    assert_eq!(Error::NotFound, Error::NotFound);
    assert_eq!(Error::Unknown, Error::Unknown);
    assert_ne!(Error::InvalidTimespan, Error::NotFound);
    assert_eq!(
        Error::InvalidUserId("u".to_owned()),
        Error::InvalidUserId("u".to_owned())
    );
    assert_ne!(
        Error::InvalidUserId("u".to_owned()),
        Error::InvalidUserId("v".to_owned())
    );
}

#[test]
fn unparsed_conflicts_keep_the_raw_detail() {
    let failure = StorageFailure::Database {
        code: "23P01".to_owned(),
        schema: Some("rsvp".to_owned()),
        table: Some("reservations".to_owned()),
        detail: Some("some future wording".to_owned()),
        description: "conflicting key value".to_owned(),
    };
    match classify_storage_failure(failure) {
        Error::ConflictReservation(ReservationConflictInfo::Unparsed(raw)) => {
            assert_eq!(raw, "some future wording");
        }
        other => panic!("expected an unparsed conflict, got {:?}", other),
    }
}

#[test]
fn str_to_option_maps_empty_to_none() {
    assert_eq!(reservation::manager::str_to_option(""), None);
    assert_eq!(reservation::manager::str_to_option("kobe"), Some("kobe"));
}

#[test]
fn reservation_id_shapes() {
    assert!(is_valid_reservation_id("00000000-0000-0000-0000-000000000000"));
    assert!(is_valid_reservation_id("a1b2c3d4-E5F6-0718-9a0b-c1d2e3f4a5b6"));
    assert!(!is_valid_reservation_id(""));
    assert!(!is_valid_reservation_id("a1b2c3d4e5f607189a0bc1d2e3f4a5b6"));
    assert!(!is_valid_reservation_id("a1b2c3d4-E5F6-0718-9a0b-c1d2e3f4a5bg"));
    assert!(!is_valid_reservation_id("a1b2c3d4-E5F6-0718-9a0b_c1d2e3f4a5b6"));
}
