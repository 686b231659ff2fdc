//! The two four-valued status enumerations: the wire form carried by
//! reservation records as an integer code, and the storage form the backing
//! store keeps. They are isomorphic and the conversions are total.

use vstd::prelude::*;

verus! {

/// Wire form of a reservation's lifecycle state.
#[derive(Clone, Copy, Debug, PartialEq, Eq, Structural)]
pub enum ReservationStatus {
    Unknown,
    Pending,
    Confirmed,
    Blocked,
}

/// Storage form of a reservation's lifecycle state.
#[derive(Clone, Copy, Debug, PartialEq, Eq, Structural)]
pub enum RsvpStatus {
    Unknown,
    Pending,
    Confirmed,
    Blocked,
}

/// The integer code a wire status travels as.
pub open spec fn wire_code(s: ReservationStatus) -> i32 {
    match s {
        ReservationStatus::Unknown => 0,
        ReservationStatus::Pending => 1,
        ReservationStatus::Confirmed => 2,
        ReservationStatus::Blocked => 3,
    }
}

/// The wire status an integer code denotes; a code outside the range of the
/// enumeration falls back to `Pending`, the default the store would apply.
pub open spec fn status_of_code(c: i32) -> ReservationStatus {
    if c == 0 {
        ReservationStatus::Unknown
    } else if c == 1 {
        ReservationStatus::Pending
    } else if c == 2 {
        ReservationStatus::Confirmed
    } else if c == 3 {
        ReservationStatus::Blocked
    } else {
        ReservationStatus::Pending
    }
}

/// A code already in range is left unchanged; any other collapses to the
/// code of `Pending`.
pub open spec fn normalize_code(c: i32) -> i32 {
    wire_code(status_of_code(c))
}

/// The wire status a storage status corresponds to.
pub open spec fn wire_of_storage(v: RsvpStatus) -> ReservationStatus {
    match v {
        RsvpStatus::Unknown => ReservationStatus::Unknown,
        RsvpStatus::Pending => ReservationStatus::Pending,
        RsvpStatus::Confirmed => ReservationStatus::Confirmed,
        RsvpStatus::Blocked => ReservationStatus::Blocked,
    }
}

/// The storage status a wire status corresponds to.
pub open spec fn storage_of_wire(s: ReservationStatus) -> RsvpStatus {
    match s {
        ReservationStatus::Unknown => RsvpStatus::Unknown,
        ReservationStatus::Pending => RsvpStatus::Pending,
        ReservationStatus::Confirmed => RsvpStatus::Confirmed,
        ReservationStatus::Blocked => RsvpStatus::Blocked,
    }
}

/// The uppercase token a status is written as on the wire to the store.
pub open spec fn status_token(s: ReservationStatus) -> Seq<char> {
    match s {
        ReservationStatus::Unknown => "UNKNOWN"@,
        ReservationStatus::Pending => "PENDING"@,
        ReservationStatus::Confirmed => "CONFIRMED"@,
        ReservationStatus::Blocked => "BLOCKED"@,
    }
}

impl ReservationStatus {
    /// The integer code this status travels as.
    pub fn to_i32(&self) -> (r: i32)
        ensures
            r == wire_code(*self),
    {
        match self {
            ReservationStatus::Unknown => 0,
            ReservationStatus::Pending => 1,
            ReservationStatus::Confirmed => 2,
            ReservationStatus::Blocked => 3,
        }
    }

    /// The status an integer code denotes, out-of-range codes falling back
    /// to `Pending`.
    pub fn from_i32(c: i32) -> (r: Self)
        ensures
            r == status_of_code(c),
    {
        if c == 0 {
            ReservationStatus::Unknown
        } else if c == 1 {
            ReservationStatus::Pending
        } else if c == 2 {
            ReservationStatus::Confirmed
        } else if c == 3 {
            ReservationStatus::Blocked
        } else {
            ReservationStatus::Pending
        }
    }

    /// Renders this status as its uppercase textual token, the on-wire form
    /// for the store.
    pub fn to_text(&self) -> (r: String)
        ensures
            r@ == status_token(*self),
    {
        match self {
            ReservationStatus::Unknown => "UNKNOWN".to_owned(),
            ReservationStatus::Pending => "PENDING".to_owned(),
            ReservationStatus::Confirmed => "CONFIRMED".to_owned(),
            ReservationStatus::Blocked => "BLOCKED".to_owned(),
        }
    }
}

impl RsvpStatus {
    /// The storage status an uppercase token denotes, or `None` for any
    /// other string.
    pub fn from_text(s: &str) -> (r: Option<Self>)
        ensures
            r == storage_of_token(s@),
    {
        if crate::text::str_eq(s, "UNKNOWN") {
            Some(RsvpStatus::Unknown)
        } else if crate::text::str_eq(s, "PENDING") {
            Some(RsvpStatus::Pending)
        } else if crate::text::str_eq(s, "CONFIRMED") {
            Some(RsvpStatus::Confirmed)
        } else if crate::text::str_eq(s, "BLOCKED") {
            Some(RsvpStatus::Blocked)
        } else {
            None
        }
    }
}

/// The storage status an uppercase token denotes.
pub open spec fn storage_of_token(s: Seq<char>) -> Option<RsvpStatus> {
    if s == "UNKNOWN"@ {
        Some(RsvpStatus::Unknown)
    } else if s == "PENDING"@ {
        Some(RsvpStatus::Pending)
    } else if s == "CONFIRMED"@ {
        Some(RsvpStatus::Confirmed)
    } else if s == "BLOCKED"@ {
        Some(RsvpStatus::Blocked)
    } else {
        None
    }
}

impl From<RsvpStatus> for ReservationStatus {
    fn from(value: RsvpStatus) -> (r: Self) {
        match value {
            RsvpStatus::Unknown => ReservationStatus::Unknown,
            RsvpStatus::Pending => ReservationStatus::Pending,
            RsvpStatus::Confirmed => ReservationStatus::Confirmed,
            RsvpStatus::Blocked => ReservationStatus::Blocked,
        }
    }
}

impl vstd::std_specs::convert::FromSpecImpl<RsvpStatus> for ReservationStatus {
    open spec fn obeys_from_spec() -> bool {
        true
    }

    open spec fn from_spec(v: RsvpStatus) -> Self {
        wire_of_storage(v)
    }
}

impl From<ReservationStatus> for RsvpStatus {
    fn from(value: ReservationStatus) -> (r: Self) {
        match value {
            ReservationStatus::Unknown => RsvpStatus::Unknown,
            ReservationStatus::Pending => RsvpStatus::Pending,
            ReservationStatus::Confirmed => RsvpStatus::Confirmed,
            ReservationStatus::Blocked => RsvpStatus::Blocked,
        }
    }
}

impl vstd::std_specs::convert::FromSpecImpl<ReservationStatus> for RsvpStatus {
    open spec fn obeys_from_spec() -> bool {
        true
    }

    open spec fn from_spec(s: ReservationStatus) -> Self {
        storage_of_wire(s)
    }
}

/// The two status enumerations are isomorphic: converting either way and
/// back returns the value one started from.
pub proof fn lemma_status_isomorphism(s: ReservationStatus, v: RsvpStatus)
    ensures
        storage_of_wire(wire_of_storage(v)) == v,
        wire_of_storage(storage_of_wire(s)) == s,
{
}

/// Decoding an integer code and re-encoding it yields the normalized code;
/// codes of real statuses survive the round trip unchanged.
pub proof fn lemma_status_code_round_trip(s: ReservationStatus, c: i32)
    ensures
        status_of_code(wire_code(s)) == s,
        0 <= c <= 3 ==> normalize_code(c) == c,
{
}

} // verus!
