use vstd::prelude::*;

pub mod conflict;
pub mod error;
pub mod ids;
pub mod manager;
pub mod query;
pub mod reservation;
pub mod status;
pub mod text;
pub mod time;

pub use conflict::{ReservationConflict, ReservationConflictInfo, ReservationWindow};
pub use error::Error;
pub use manager::{ReservationId, ReservationManager, Rsvp};
pub use query::{ReservationQuery, ReservationQueryBuilder};
pub use reservation::Reservation;
pub use status::{ReservationStatus, RsvpStatus};
pub use time::{TimeRange, Timestamp, UtcDateTime};

verus! {

/// A value that knows how to check itself before it is handed to the
/// store.
pub trait Validator {
    /// When the value passes validation.
    spec fn valid(&self) -> bool;

    /// The error reported when it does not.
    spec fn invalid_error(&self) -> crate::error::ErrorView;

    /// Checks the value, reporting the first failure.
    fn validate(&self) -> (r: Result<(), Error>)
        ensures
            r is Ok <==> self.valid(),
            r matches Err(e) ==> e@ == self.invalid_error(),
    ;
}

} // verus!
