//! Wall-clock timestamps, UTC instants, and half-open time ranges.
//!
//! A reservation's bounds travel on the wire as second/nanosecond pairs and
//! are compared as UTC instants; a reservation occupies the half-open
//! interval `[start, end)`.

use vstd::prelude::*;

use crate::error::Error;

verus! {

/// Nanoseconds in one second; a normalized instant keeps its nanosecond
/// part strictly below this.
pub const NANOS_PER_SEC: u32 = 1_000_000_000;

/// A wire timestamp: whole seconds since the Unix epoch plus a nanosecond
/// remainder. Nothing forces the remainder into `[0, NANOS_PER_SEC)` here;
/// `ts_norm` says when it is.
#[derive(Clone, Copy, Debug, PartialEq, Eq, Structural)]
pub struct Timestamp {
    pub seconds: i64,
    pub nanos: i32,
}

/// An instant in UTC with nanosecond precision, the normalized counterpart
/// of `Timestamp`.
#[derive(Clone, Copy, Debug, PartialEq, Eq, Structural)]
pub struct UtcDateTime {
    pub seconds: i64,
    pub nanos: u32,
}

/// A half-open interval `[start, end)` of UTC instants.
#[derive(Clone, Copy, Debug, PartialEq, Eq, Structural)]
pub struct TimeRange {
    pub start: UtcDateTime,
    pub end: UtcDateTime,
}

/// A wire timestamp is normalized when its nanosecond part names a real
/// sub-second offset.
pub open spec fn ts_norm(ts: Timestamp) -> bool {
    0 <= ts.nanos < NANOS_PER_SEC
}

/// A UTC instant is normalized under the same bound.
pub open spec fn utc_norm(dt: UtcDateTime) -> bool {
    dt.nanos < NANOS_PER_SEC
}

/// The UTC instant a normalized wire timestamp denotes.
pub open spec fn utc_of(ts: Timestamp) -> UtcDateTime {
    UtcDateTime { seconds: ts.seconds, nanos: ts.nanos as u32 }
}

/// The wire form of a UTC instant.
pub open spec fn ts_of(dt: UtcDateTime) -> Timestamp {
    Timestamp { seconds: dt.seconds, nanos: dt.nanos as i32 }
}

/// Strict order on wire timestamps: seconds first, then nanoseconds.
pub open spec fn ts_lt(a: Timestamp, b: Timestamp) -> bool {
    a.seconds < b.seconds || (a.seconds == b.seconds && a.nanos < b.nanos)
}

/// Weak order on wire timestamps.
pub open spec fn ts_le(a: Timestamp, b: Timestamp) -> bool {
    a.seconds < b.seconds || (a.seconds == b.seconds && a.nanos <= b.nanos)
}

/// Converts a wire timestamp to the UTC instant it denotes.
pub fn timestamp_to_utc_time(ts: &Timestamp) -> (r: UtcDateTime)
    requires
        ts_norm(*ts),
    ensures
        r == utc_of(*ts),
{
    UtcDateTime { seconds: ts.seconds, nanos: ts.nanos as u32 }
}

/// Converts a UTC instant back to its wire form.
pub fn utc_time_to_timestamp(dt: UtcDateTime) -> (r: Timestamp)
    requires
        utc_norm(dt),
    ensures
        r == ts_of(dt),
{
    Timestamp { seconds: dt.seconds, nanos: dt.nanos as i32 }
}

/// Converting a normalized wire timestamp to a UTC instant and back
/// preserves the seconds and the nanoseconds exactly.
pub proof fn lemma_timestamp_round_trip(ts: Timestamp)
    requires
        ts_norm(ts),
    ensures
        ts_of(utc_of(ts)) == ts,
{
}

/// Converting a UTC instant to its wire form and back preserves it exactly.
pub proof fn lemma_utc_round_trip(dt: UtcDateTime)
    requires
        utc_norm(dt),
    ensures
        utc_of(ts_of(dt)) == dt,
{
}

/// Compares two wire timestamps strictly, seconds first, then nanoseconds.
pub fn ts_before(a: &Timestamp, b: &Timestamp) -> (r: bool)
    ensures
        r == ts_lt(*a, *b),
{
    a.seconds < b.seconds || (a.seconds == b.seconds && a.nanos < b.nanos)
}

/// A pair of optional bounds names a valid timespan when both bounds are
/// present and the start precedes the end; whole-second granularity
/// suffices for this comparison.
pub open spec fn time_range_ok(start: Option<Timestamp>, end: Option<Timestamp>) -> bool {
    start matches Some(s) && end matches Some(e) && s.seconds < e.seconds
}

/// Validates the time range: both bounds must be present and the start
/// must precede the end at whole-second granularity.
pub fn vlidate_time_range(start: Option<&Timestamp>, end: Option<&Timestamp>) -> (r: Result<
    (),
    Error,
>)
    ensures
        r is Ok <==> (start matches Some(s) && end matches Some(e) && s.seconds < e.seconds),
        r matches Err(e) ==> e is InvalidTimespan,
{
    match (start, end) {
        (Some(s), Some(e)) => {
            if s.seconds >= e.seconds {
                Err(Error::InvalidTimespan)
            } else {
                Ok(())
            }
        },
        _ => Err(Error::InvalidTimespan),
    }
}

/// Builds the half-open range `[start, end)` from two present, normalized
/// wire timestamps.
pub fn get_time_range(start: Option<&Timestamp>, end: Option<&Timestamp>) -> (r: TimeRange)
    requires
        start matches Some(s) && ts_norm(*s),
        end matches Some(e) && ts_norm(*e),
    ensures
        start matches Some(s) ==> r.start == utc_of(*s),
        end matches Some(e) ==> r.end == utc_of(*e),
{
    match (start, end) {
        (Some(s), Some(e)) => TimeRange {
            start: timestamp_to_utc_time(s),
            end: timestamp_to_utc_time(e),
        },
        _ => vstd::pervasive::unreached(),
    }
}

} // verus!
