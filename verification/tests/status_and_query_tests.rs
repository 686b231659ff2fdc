use reservation::{ReservationQueryBuilder, ReservationStatus, RsvpStatus, Timestamp};

#[test]
fn status_codes_round_trip() {
    let all = [
        ReservationStatus::Unknown,
        ReservationStatus::Pending,
        ReservationStatus::Confirmed,
        ReservationStatus::Blocked,
    ];
    for (code, status) in all.iter().enumerate() {
        assert_eq!(status.to_i32(), code as i32);
        assert_eq!(ReservationStatus::from_i32(code as i32), *status);
    }
}

#[test]
fn out_of_range_codes_fall_back_to_pending() {
    assert_eq!(ReservationStatus::from_i32(-1), ReservationStatus::Pending);
    assert_eq!(ReservationStatus::from_i32(4), ReservationStatus::Pending);
    assert_eq!(ReservationStatus::from_i32(i32::MAX), ReservationStatus::Pending);
}

#[test]
fn status_conversions_are_isomorphic() {
    let wire = [
        ReservationStatus::Unknown,
        ReservationStatus::Pending,
        ReservationStatus::Confirmed,
        ReservationStatus::Blocked,
    ];
    for s in wire {
        let storage: RsvpStatus = s.into();
        let back: ReservationStatus = storage.into();
        assert_eq!(back, s);
    }
}

#[test]
fn status_tokens_are_uppercase() {
    assert_eq!(ReservationStatus::Unknown.to_text(), "UNKNOWN");
    assert_eq!(ReservationStatus::Pending.to_text(), "PENDING");
    assert_eq!(ReservationStatus::Confirmed.to_text(), "CONFIRMED");
    assert_eq!(ReservationStatus::Blocked.to_text(), "BLOCKED");
}

#[test]
fn storage_status_parses_tokens() {
    assert_eq!(RsvpStatus::from_text("PENDING"), Some(RsvpStatus::Pending));
    assert_eq!(RsvpStatus::from_text("CONFIRMED"), Some(RsvpStatus::Confirmed));
    assert_eq!(RsvpStatus::from_text("BLOCKED"), Some(RsvpStatus::Blocked));
    assert_eq!(RsvpStatus::from_text("UNKNOWN"), Some(RsvpStatus::Unknown));
    assert_eq!(RsvpStatus::from_text("pending"), None);
    assert_eq!(RsvpStatus::from_text(""), None);
}

#[test]
fn builder_requires_both_bounds() {
    let start = Timestamp { seconds: 1, nanos: 0 };
    let end = Timestamp { seconds: 2, nanos: 0 };
    assert!(ReservationQueryBuilder::default().build().is_err());
    assert!(ReservationQueryBuilder::default().start(start).build().is_err());
    assert!(ReservationQueryBuilder::default().end(end).build().is_err());
    assert!(ReservationQueryBuilder::default().start(start).end(end).build().is_ok());
}

#[test]
fn builder_defaults_filters_to_zero_values() {
    let start = Timestamp { seconds: 1, nanos: 0 };
    let end = Timestamp { seconds: 2, nanos: 0 };
    let q = ReservationQueryBuilder::default().start(start).end(end).build().unwrap();
    assert_eq!(q.user_id, "");
    assert_eq!(q.resource_id, "");
    assert_eq!(q.status, 0);
    assert_eq!(q.page, 0);
    assert_eq!(q.page_size, 0);
    assert!(!q.desc);
    assert_eq!(q.start, Some(start));
    assert_eq!(q.end, Some(end));
}

#[test]
fn builder_keeps_every_setter() {
    let start = Timestamp { seconds: 1, nanos: 5 };
    let end = Timestamp { seconds: 2, nanos: 7 };
    let q = ReservationQueryBuilder::default()
        .user_id("kobe")
        .resource_id("room-1")
        .start(start)
        .end(end)
        .status(2)
        .page(3)
        .page_size(10)
        .desc(true)
        .build()
        .unwrap();
    assert_eq!(q.user_id, "kobe");
    assert_eq!(q.resource_id, "room-1");
    assert_eq!(q.status, 2);
    assert_eq!(q.page, 3);
    assert_eq!(q.page_size, 10);
    assert!(q.desc);
}
