//! The reservation record: a persisted claim by a user on a resource
//! across a half-open time interval.

use vstd::prelude::*;

use crate::error::Error;
use crate::status::{wire_code, ReservationStatus};
use crate::time::{
    get_time_range, time_range_ok, ts_norm, ts_of, utc_of, vlidate_time_range, TimeRange,
    Timestamp, UtcDateTime,
};
use crate::Validator;

verus! {

/// A reservation record. The `id` is empty on unpersisted records and is
/// assigned by the store on insert; `status` carries the integer code of a
/// `ReservationStatus`.
#[derive(Debug, Clone)]
pub struct Reservation {
    pub id: String,
    pub user_id: String,
    pub resource_id: String,
    pub start: Option<Timestamp>,
    pub end: Option<Timestamp>,
    pub note: String,
    pub status: i32,
}

/// Mathematical image of a `Reservation`.
pub struct ReservationView {
    pub id: Seq<char>,
    pub user_id: Seq<char>,
    pub resource_id: Seq<char>,
    pub start: Option<Timestamp>,
    pub end: Option<Timestamp>,
    pub note: Seq<char>,
    pub status: i32,
}

impl View for Reservation {
    type V = ReservationView;

    open spec fn view(&self) -> ReservationView {
        ReservationView {
            id: self.id@,
            user_id: self.user_id@,
            resource_id: self.resource_id@,
            start: self.start,
            end: self.end,
            note: self.note@,
            status: self.status,
        }
    }
}

/// A reservation passes validation when both ids are non-empty and its
/// bounds name a valid timespan.
pub open spec fn res_valid(rv: ReservationView) -> bool {
    rv.user_id.len() > 0 && rv.resource_id.len() > 0 && time_range_ok(rv.start, rv.end)
}

/// The first error `validate` reports on a record that fails validation.
pub open spec fn res_invalid_error(rv: ReservationView) -> crate::error::ErrorView {
    if rv.user_id.len() == 0 {
        crate::error::ErrorView::InvalidUserId(rv.user_id)
    } else if rv.resource_id.len() == 0 {
        crate::error::ErrorView::InvalidResourceId(rv.resource_id)
    } else {
        crate::error::ErrorView::InvalidTimespan
    }
}

/// Both bounds of the record, where present, are normalized wire
/// timestamps.
pub open spec fn res_norm(rv: ReservationView) -> bool {
    &&& rv.start matches Some(s) ==> ts_norm(s)
    &&& rv.end matches Some(e) ==> ts_norm(e)
}

impl Reservation {
    /// Creates a new unpersisted reservation: empty id, `PENDING` status,
    /// and the given bounds taken as UTC instants.
    pub fn new_pending(
        uid: String,
        rid: String,
        start: UtcDateTime,
        end: UtcDateTime,
        note: String,
    ) -> (r: Self)
        requires
            crate::time::utc_norm(start),
            crate::time::utc_norm(end),
        ensures
            r@ == (ReservationView {
                id: Seq::<char>::empty(),
                user_id: uid@,
                resource_id: rid@,
                start: Some(ts_of(start)),
                end: Some(ts_of(end)),
                note: note@,
                status: wire_code(ReservationStatus::Pending),
            }),
    {
        Reservation {
            id: String::new(),
            user_id: uid,
            resource_id: rid,
            start: Some(crate::time::utc_time_to_timestamp(start)),
            end: Some(crate::time::utc_time_to_timestamp(end)),
            note,
            status: 1,
        }
    }

    /// The half-open interval `[start, end)` this record claims.
    pub fn get_timespan(&self) -> (r: TimeRange)
        requires
            self.start matches Some(s) && ts_norm(s),
            self.end matches Some(e) && ts_norm(e),
        ensures
            self.start matches Some(s) ==> r.start == utc_of(s),
            self.end matches Some(e) ==> r.end == utc_of(e),
    {
        get_time_range(self.start.as_ref(), self.end.as_ref())
    }

    /// Returns a record equal to this one in every field.
    pub fn duplicate(&self) -> (r: Self)
        ensures
            r@ == self@,
    {
        Reservation {
            id: self.id.clone(),
            user_id: self.user_id.clone(),
            resource_id: self.resource_id.clone(),
            start: self.start,
            end: self.end,
            note: self.note.clone(),
            status: self.status,
        }
    }
}

impl Validator for Reservation {
    open spec fn valid(&self) -> bool {
        res_valid(self@)
    }

    open spec fn invalid_error(&self) -> crate::error::ErrorView {
        res_invalid_error(self@)
    }

    fn validate(&self) -> (r: Result<(), Error>) {
        if self.user_id.as_str().is_empty() {
            return Err(Error::InvalidUserId(self.user_id.clone()));
        }
        if self.resource_id.as_str().is_empty() {
            return Err(Error::InvalidResourceId(self.resource_id.clone()));
        }
        match vlidate_time_range(self.start.as_ref(), self.end.as_ref()) {
            Ok(()) => Ok(()),
            Err(e) => Err(e),
        }
    }
}

impl PartialEq for Reservation {
    fn eq(&self, other: &Self) -> (r: bool) {
        self.id == other.id && self.user_id == other.user_id && self.resource_id
            == other.resource_id && opt_ts_eq(&self.start, &other.start) && opt_ts_eq(
            &self.end,
            &other.end,
        ) && self.note == other.note && self.status == other.status
    }
}

impl vstd::std_specs::cmp::PartialEqSpecImpl for Reservation {
    open spec fn obeys_eq_spec() -> bool {
        true
    }

    open spec fn eq_spec(&self, other: &Self) -> bool {
        self@ == other@
    }
}

/// Compares two optional wire timestamps field by field.
fn opt_ts_eq(a: &Option<Timestamp>, b: &Option<Timestamp>) -> (r: bool)
    ensures
        r == (*a == *b),
{
    match (a, b) {
        (Some(x), Some(y)) => x.seconds == y.seconds && x.nanos == y.nanos,
        (None, None) => true,
        _ => false,
    }
}

} // verus!
