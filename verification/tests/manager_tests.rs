use reservation::{
    Error, Reservation, ReservationConflict, ReservationConflictInfo, ReservationManager,
    ReservationQueryBuilder, ReservationStatus, ReservationWindow, Rsvp, Timestamp, UtcDateTime,
    Validator,
};

fn utc_of_rfc3339(s: &str) -> UtcDateTime {
    let dt = chrono::DateTime::parse_from_rfc3339(s).unwrap();
    UtcDateTime { seconds: dt.timestamp(), nanos: dt.timestamp_subsec_nanos() }
}

fn ts_of_rfc3339(s: &str) -> Timestamp {
    let dt = chrono::DateTime::parse_from_rfc3339(s).unwrap();
    Timestamp { seconds: dt.timestamp(), nanos: dt.timestamp_subsec_nanos() as i32 }
}

fn make_reservation(
    manager: &mut ReservationManager,
    uid: &str,
    rid: &str,
    start: &str,
    end: &str,
    note: &str,
) -> Result<Reservation, Error> {
    let rsvp = Reservation::new_pending(
        uid.to_owned(),
        rid.to_owned(),
        utc_of_rfc3339(start),
        utc_of_rfc3339(end),
        note.to_owned(),
    );
    manager.reserve(rsvp)
}

fn make_basic_reservation(manager: &mut ReservationManager) -> Result<Reservation, Error> {
    make_reservation(
        manager,
        "kobe",
        "room-114514",
        "2025-06-01T12:00:00-07:00",
        "2025-06-03T12:00:00-07:00",
        "Man, what can I say!",
    )
}

#[test]
fn reserve_should_work_for_valid_window() {
    let mut manager = ReservationManager::new();
    // Create a reservation with a valid time window for 3 days.
    let rsvp = make_basic_reservation(&mut manager).unwrap();
    assert!(!rsvp.id.is_empty());
}

#[test]
fn conflict_reserve_should_reject() {
    let mut manager = ReservationManager::new();
    let rsvp1 = make_basic_reservation(&mut manager).unwrap();
    assert!(!rsvp1.id.is_empty());

    // new reservation
    let err = make_reservation(
        &mut manager,
        "man",
        "room-114514",
        "2025-06-02T12:00:00-07:00",
        "2025-06-05T12:00:00-07:00",
        "hi.",
    )
    .unwrap_err();

    let info = ReservationConflictInfo::Parsed(ReservationConflict {
        new: ReservationWindow {
            rid: "room-114514".to_owned(),
            start: utc_of_rfc3339("2025-06-02T19:00:00+00:00"),
            end: utc_of_rfc3339("2025-06-05T19:00:00+00:00"),
        },
        old: ReservationWindow {
            rid: "room-114514".to_owned(),
            start: utc_of_rfc3339("2025-06-01T19:00:00+00:00"),
            end: utc_of_rfc3339("2025-06-03T19:00:00+00:00"),
        },
    });

    assert_eq!(err, Error::ConflictReservation(info));
}

#[test]
fn change_status_should_work() {
    let mut manager = ReservationManager::new();
    let rsvp = make_basic_reservation(&mut manager).unwrap();
    assert_eq!(rsvp.status, ReservationStatus::Pending.to_i32());
    let updated_rsvp = manager.change_status(rsvp.id.clone()).unwrap();
    assert_eq!(updated_rsvp.status, ReservationStatus::Confirmed.to_i32());
    assert_eq!(updated_rsvp.id, rsvp.id);
}

#[test]
fn change_status_on_no_pending_rsvp_should_do_nothing() {
    let mut manager = ReservationManager::new();
    let rsvp = make_basic_reservation(&mut manager).unwrap();
    assert_eq!(rsvp.status, ReservationStatus::Pending.to_i32());
    let updated_rsvp = manager.change_status(rsvp.id.clone()).unwrap();
    assert_eq!(updated_rsvp.status, ReservationStatus::Confirmed.to_i32());
    let res = manager.change_status(rsvp.id.clone()).unwrap_err();
    assert_eq!(res, Error::NotFound);
}

#[test]
fn update_note_should_work() {
    let mut manager = ReservationManager::new();
    let rsvp = make_basic_reservation(&mut manager).unwrap();
    assert!(!rsvp.id.is_empty());

    let new_note = "Mamba out!".to_owned();
    let updated_rsvp = manager.update_note(rsvp.id.clone(), new_note.clone()).unwrap();
    assert_eq!(updated_rsvp.note, new_note);
}

#[test]
fn delete_should_work() {
    let mut manager = ReservationManager::new();
    let rsvp = make_basic_reservation(&mut manager).unwrap();
    assert!(!rsvp.id.is_empty());

    // Delete the reservation.
    manager.delete(rsvp.id.clone()).unwrap();

    // Try to get the deleted reservation, should return NotFound error.
    let res = manager.get(rsvp.id.clone());
    assert!(res.is_err());
    assert_eq!(res.unwrap_err(), Error::NotFound);
}

#[test]
fn get_should_work() {
    let mut manager = ReservationManager::new();
    let rsvp = make_basic_reservation(&mut manager).unwrap();
    assert!(!rsvp.id.is_empty());

    // Query reservations by room ID.
    let get = manager.get(rsvp.id.clone()).unwrap();
    assert_eq!(rsvp, get);
}

#[test]
fn query_should_work() {
    let mut manager = ReservationManager::new();
    let rsvp = make_basic_reservation(&mut manager).unwrap();
    assert!(!rsvp.id.is_empty());

    let query = ReservationQueryBuilder::default()
        .user_id("kobe")
        .resource_id("room-114514")
        .start(ts_of_rfc3339("2025-06-01T12:00:00-07:00"))
        .end(ts_of_rfc3339("2025-06-03T12:00:00-07:00"))
        .status(ReservationStatus::Pending.to_i32())
        .build()
        .unwrap();
    let rsvps = manager.query(query).unwrap();
    assert_eq!(rsvps.len(), 1);
    assert_eq!(rsvps[0].id, rsvp.id);

    // if window is not in range, should return empty
    let query = ReservationQueryBuilder::default()
        .user_id("kobe")
        .resource_id("room-114514")
        .start(ts_of_rfc3339("2025-06-04T12:00:00-07:00"))
        .end(ts_of_rfc3339("2025-06-05T12:00:00-07:00"))
        .status(ReservationStatus::Pending.to_i32())
        .build()
        .unwrap();
    let rsvps = manager.query(query).unwrap();
    assert_eq!(rsvps.len(), 0);

    // if the state is not correct, should return empty.
    let query = ReservationQueryBuilder::default()
        .user_id("kobe")
        .resource_id("room-114514")
        .start(ts_of_rfc3339("2025-06-01T12:00:00-07:00"))
        .end(ts_of_rfc3339("2025-06-03T12:00:00-07:00"))
        .status(ReservationStatus::Confirmed.to_i32())
        .build()
        .unwrap();
    let rsvps = manager.query(query.clone()).unwrap();
    assert_eq!(rsvps.len(), 0);

    // change state to confirmed, should return result
    let rsvp = manager.change_status(rsvp.id).unwrap();
    let rsvps = manager.query(query).unwrap();
    assert_eq!(rsvps.len(), 1);
    assert_eq!(rsvp.id, rsvps[0].id);
}

#[test]
fn validate_accepts_exactly_nonempty_ids_and_increasing_window() {
    let ok = Reservation::new_pending(
        "u".to_owned(),
        "r".to_owned(),
        UtcDateTime { seconds: 1, nanos: 0 },
        UtcDateTime { seconds: 2, nanos: 0 },
        "".to_owned(),
    );
    assert!(ok.validate().is_ok());

    let mut bad_user = ok.clone();
    bad_user.user_id = "".to_owned();
    assert_eq!(bad_user.validate().unwrap_err(), Error::InvalidUserId("".to_owned()));

    let mut bad_resource = ok.clone();
    bad_resource.resource_id = "".to_owned();
    assert_eq!(
        bad_resource.validate().unwrap_err(),
        Error::InvalidResourceId("".to_owned())
    );

    let mut backwards = ok.clone();
    backwards.start = Some(Timestamp { seconds: 2, nanos: 0 });
    backwards.end = Some(Timestamp { seconds: 1, nanos: 0 });
    assert_eq!(backwards.validate().unwrap_err(), Error::InvalidTimespan);

    let mut missing = ok.clone();
    missing.start = None;
    assert_eq!(missing.validate().unwrap_err(), Error::InvalidTimespan);

    let mut equal_seconds = ok;
    equal_seconds.start = Some(Timestamp { seconds: 1, nanos: 0 });
    equal_seconds.end = Some(Timestamp { seconds: 1, nanos: 999 });
    assert_eq!(equal_seconds.validate().unwrap_err(), Error::InvalidTimespan);
}

#[test]
fn reserve_rejects_empty_user() {
    let mut manager = ReservationManager::new();
    let err = make_reservation(
        &mut manager,
        "",
        "room-1",
        "2025-06-01T12:00:00+00:00",
        "2025-06-02T12:00:00+00:00",
        "",
    )
    .unwrap_err();
    assert_eq!(err, Error::InvalidUserId("".to_owned()));
}

#[test]
fn reserve_rejects_empty_resource() {
    let mut manager = ReservationManager::new();
    let err = make_reservation(
        &mut manager,
        "kobe",
        "",
        "2025-06-01T12:00:00+00:00",
        "2025-06-02T12:00:00+00:00",
        "",
    )
    .unwrap_err();
    assert_eq!(err, Error::InvalidResourceId("".to_owned()));
}

#[test]
fn reserve_rejects_backward_window() {
    let mut manager = ReservationManager::new();
    let err = make_reservation(
        &mut manager,
        "kobe",
        "room-1",
        "2025-06-02T12:00:00+00:00",
        "2025-06-01T12:00:00+00:00",
        "",
    )
    .unwrap_err();
    assert_eq!(err, Error::InvalidTimespan);
}

#[test]
fn adjacent_windows_do_not_conflict() {
    let mut manager = ReservationManager::new();
    make_reservation(
        &mut manager,
        "kobe",
        "room-1",
        "2025-06-01T10:00:00+00:00",
        "2025-06-01T12:00:00+00:00",
        "",
    )
    .unwrap();
    // A half-open interval may start exactly where the previous one ends.
    make_reservation(
        &mut manager,
        "gianna",
        "room-1",
        "2025-06-01T12:00:00+00:00",
        "2025-06-01T14:00:00+00:00",
        "",
    )
    .unwrap();
    // A different resource never conflicts.
    make_reservation(
        &mut manager,
        "kobe",
        "room-2",
        "2025-06-01T10:00:00+00:00",
        "2025-06-01T12:00:00+00:00",
        "",
    )
    .unwrap();
}

#[test]
fn ids_are_distinct_uuids() {
    let mut manager = ReservationManager::new();
    let a = make_reservation(
        &mut manager,
        "u1",
        "r1",
        "2025-06-01T10:00:00+00:00",
        "2025-06-01T11:00:00+00:00",
        "",
    )
    .unwrap();
    let b = make_reservation(
        &mut manager,
        "u2",
        "r2",
        "2025-06-01T10:00:00+00:00",
        "2025-06-01T11:00:00+00:00",
        "",
    )
    .unwrap();
    assert_ne!(a.id, b.id);
    assert_eq!(a.id.len(), 36);
    assert_eq!(b.id.len(), 36);
}

#[test]
fn malformed_ids_are_rejected() {
    let mut manager = ReservationManager::new();
    let err = manager.get("not-a-uuid".to_owned()).unwrap_err();
    assert_eq!(err, Error::InvalidReservationId("not-a-uuid".to_owned()));
    let err = manager.change_status("".to_owned()).unwrap_err();
    assert_eq!(err, Error::InvalidReservationId("".to_owned()));
    let err = manager.delete("1234".to_owned()).unwrap_err();
    assert_eq!(err, Error::InvalidReservationId("1234".to_owned()));
    let err = manager.update_note("x".repeat(36), "note".to_owned()).unwrap_err();
    assert_eq!(err, Error::InvalidReservationId("x".repeat(36)));
}

#[test]
fn delete_of_missing_row_is_not_an_error() {
    let mut manager = ReservationManager::new();
    let rsvp = make_basic_reservation(&mut manager).unwrap();
    manager.delete(rsvp.id.clone()).unwrap();
    // The row is already gone; deleting again still succeeds.
    manager.delete(rsvp.id).unwrap();
}

#[test]
fn query_orders_by_start_time() {
    let mut manager = ReservationManager::new();
    // Inserted out of order on three resources.
    make_reservation(
        &mut manager,
        "u",
        "r2",
        "2025-06-02T10:00:00+00:00",
        "2025-06-02T11:00:00+00:00",
        "",
    )
    .unwrap();
    make_reservation(
        &mut manager,
        "u",
        "r1",
        "2025-06-01T10:00:00+00:00",
        "2025-06-01T11:00:00+00:00",
        "",
    )
    .unwrap();
    make_reservation(
        &mut manager,
        "u",
        "r3",
        "2025-06-03T10:00:00+00:00",
        "2025-06-03T11:00:00+00:00",
        "",
    )
    .unwrap();

    let asc = ReservationQueryBuilder::default()
        .user_id("u")
        .start(ts_of_rfc3339("2025-05-01T00:00:00+00:00"))
        .end(ts_of_rfc3339("2025-07-01T00:00:00+00:00"))
        .status(ReservationStatus::Pending.to_i32())
        .build()
        .unwrap();
    let rows = manager.query(asc).unwrap();
    assert_eq!(rows.len(), 3);
    for w in rows.windows(2) {
        assert!(w[0].start.unwrap().seconds <= w[1].start.unwrap().seconds);
    }
    assert_eq!(rows[0].resource_id, "r1");
    assert_eq!(rows[2].resource_id, "r3");

    let desc = ReservationQueryBuilder::default()
        .user_id("u")
        .start(ts_of_rfc3339("2025-05-01T00:00:00+00:00"))
        .end(ts_of_rfc3339("2025-07-01T00:00:00+00:00"))
        .status(ReservationStatus::Pending.to_i32())
        .desc(true)
        .build()
        .unwrap();
    let rows = manager.query(desc).unwrap();
    assert_eq!(rows.len(), 3);
    for w in rows.windows(2) {
        assert!(w[0].start.unwrap().seconds >= w[1].start.unwrap().seconds);
    }
    assert_eq!(rows[0].resource_id, "r3");
}

#[test]
fn query_paginates() {
    let mut manager = ReservationManager::new();
    for day in ["01", "02", "03"] {
        make_reservation(
            &mut manager,
            "u",
            &format!("room-{day}"),
            &format!("2025-06-{day}T10:00:00+00:00"),
            &format!("2025-06-{day}T11:00:00+00:00"),
            "",
        )
        .unwrap();
    }
    let base = || {
        ReservationQueryBuilder::default()
            .user_id("u")
            .start(ts_of_rfc3339("2025-05-01T00:00:00+00:00"))
            .end(ts_of_rfc3339("2025-07-01T00:00:00+00:00"))
            .status(ReservationStatus::Pending.to_i32())
    };
    let page2 = base().page(2).page_size(1).build().unwrap();
    let rows = manager.query(page2).unwrap();
    assert_eq!(rows.len(), 1);
    assert_eq!(rows[0].resource_id, "room-02");

    let page2of2 = base().page(2).page_size(2).build().unwrap();
    let rows = manager.query(page2of2).unwrap();
    assert_eq!(rows.len(), 1);
    assert_eq!(rows[0].resource_id, "room-03");

    let beyond = base().page(5).page_size(2).build().unwrap();
    assert_eq!(manager.query(beyond).unwrap().len(), 0);
}

#[test]
fn query_rejects_missing_window() {
    let manager = ReservationManager::new();
    let query = ReservationQueryBuilder::default()
        .start(ts_of_rfc3339("2025-06-02T00:00:00+00:00"))
        .end(ts_of_rfc3339("2025-06-01T00:00:00+00:00"))
        .build()
        .unwrap();
    assert_eq!(manager.query(query).unwrap_err(), Error::InvalidTimespan);
}

#[test]
fn reserve_keeps_caller_status_but_stores_normalized() {
    let mut manager = ReservationManager::new();
    let mut rsvp = Reservation::new_pending(
        "u".to_owned(),
        "r".to_owned(),
        utc_of_rfc3339("2025-06-01T10:00:00+00:00"),
        utc_of_rfc3339("2025-06-01T11:00:00+00:00"),
        "".to_owned(),
    );
    rsvp.status = 99;
    let out = manager.reserve(rsvp).unwrap();
    // The returned record keeps the caller's code verbatim.
    assert_eq!(out.status, 99);
    // The stored row fell back to PENDING.
    let stored = manager.get(out.id).unwrap();
    assert_eq!(stored.status, ReservationStatus::Pending.to_i32());
}
