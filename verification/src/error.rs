//! The unified error taxonomy.
//!
//! Every operation of the library reports its failure as one of these
//! kinds: validation failures found before any storage work, the structured
//! interval-overlap conflict, the missing-row signal, and a catch-all for
//! any other storage failure.

use vstd::prelude::*;

use crate::conflict::{info_of_detail, ConflictInfoView, ReservationConflictInfo};
use crate::text::str_eq;

verus! {

/// The error kinds an operation can surface.
#[derive(Debug)]
pub enum Error {
    /// Any storage failure not otherwise classified, as a description.
    DatabaseError(String),
    /// An insert was rejected because its window overlaps an existing one.
    ConflictReservation(ReservationConflictInfo),
    /// A timespan bound was absent, or the bounds were not increasing.
    InvalidTimespan,
    /// A caller-supplied reservation id is not a well-formed UUID.
    InvalidReservationId(String),
    /// A reservation was created with an empty user id.
    InvalidUserId(String),
    /// A reservation was created with an empty resource id.
    InvalidResourceId(String),
    /// The target row does not exist.
    NotFound,
    /// Reserved for unclassifiable failures.
    Unknown,
}

/// Mathematical image of an `Error`.
pub enum ErrorView {
    DatabaseError(Seq<char>),
    ConflictReservation(ConflictInfoView),
    InvalidTimespan,
    InvalidReservationId(Seq<char>),
    InvalidUserId(Seq<char>),
    InvalidResourceId(Seq<char>),
    NotFound,
    Unknown,
}

impl View for Error {
    type V = ErrorView;

    open spec fn view(&self) -> ErrorView {
        match self {
            Error::DatabaseError(s) => ErrorView::DatabaseError(s@),
            Error::ConflictReservation(i) => ErrorView::ConflictReservation(i@),
            Error::InvalidTimespan => ErrorView::InvalidTimespan,
            Error::InvalidReservationId(s) => ErrorView::InvalidReservationId(s@),
            Error::InvalidUserId(s) => ErrorView::InvalidUserId(s@),
            Error::InvalidResourceId(s) => ErrorView::InvalidResourceId(s@),
            Error::NotFound => ErrorView::NotFound,
            Error::Unknown => ErrorView::Unknown,
        }
    }
}

/// Two errors are equal when they share a kind and their comparable
/// payloads agree; storage failures compare by kind alone.
pub open spec fn error_views_eq(a: ErrorView, b: ErrorView) -> bool {
    match (a, b) {
        (ErrorView::DatabaseError(_), ErrorView::DatabaseError(_)) => true,
        (ErrorView::ConflictReservation(x), ErrorView::ConflictReservation(y)) => x == y,
        (ErrorView::InvalidTimespan, ErrorView::InvalidTimespan) => true,
        (ErrorView::InvalidReservationId(x), ErrorView::InvalidReservationId(y)) => x == y,
        (ErrorView::InvalidUserId(x), ErrorView::InvalidUserId(y)) => x == y,
        (ErrorView::InvalidResourceId(x), ErrorView::InvalidResourceId(y)) => x == y,
        (ErrorView::NotFound, ErrorView::NotFound) => true,
        (ErrorView::Unknown, ErrorView::Unknown) => true,
        _ => false,
    }
}

impl PartialEq for Error {
    fn eq(&self, other: &Self) -> (r: bool) {
        match (self, other) {
            (Error::DatabaseError(_), Error::DatabaseError(_)) => true,
            (Error::ConflictReservation(x), Error::ConflictReservation(y)) => *x == *y,
            (Error::InvalidTimespan, Error::InvalidTimespan) => true,
            (Error::InvalidReservationId(x), Error::InvalidReservationId(y)) => *x == *y,
            (Error::InvalidUserId(x), Error::InvalidUserId(y)) => *x == *y,
            (Error::InvalidResourceId(x), Error::InvalidResourceId(y)) => *x == *y,
            (Error::NotFound, Error::NotFound) => true,
            (Error::Unknown, Error::Unknown) => true,
            _ => false,
        }
    }
}

impl vstd::std_specs::cmp::PartialEqSpecImpl for Error {
    open spec fn obeys_eq_spec() -> bool {
        true
    }

    open spec fn eq_spec(&self, other: &Self) -> bool {
        error_views_eq(self@, other@)
    }
}

/// A plain-value image of a backend storage failure, as the edge that
/// talks to the store reports it.
pub enum StorageFailure {
    /// A failure the database itself reported: its SQLSTATE code, the
    /// schema and table it names, its detail text, and a rendered
    /// description of the whole failure.
    Database {
        code: String,
        schema: Option<String>,
        table: Option<String>,
        detail: Option<String>,
        description: String,
    },
    /// The statement found no row where one was required.
    RowNotFound,
    /// Any other storage failure, as a rendered description.
    Other { description: String },
}

/// Mathematical image of a `StorageFailure`.
pub enum StorageFailureView {
    Database {
        code: Seq<char>,
        schema: Option<Seq<char>>,
        table: Option<Seq<char>>,
        detail: Option<Seq<char>>,
        description: Seq<char>,
    },
    RowNotFound,
    Other { description: Seq<char> },
}

impl View for StorageFailure {
    type V = StorageFailureView;

    open spec fn view(&self) -> StorageFailureView {
        match self {
            StorageFailure::Database { code, schema, table, detail, description } => {
                StorageFailureView::Database {
                    code: code@,
                    schema: match schema {
                        Some(s) => Some(s@),
                        None => None,
                    },
                    table: match table {
                        Some(t) => Some(t@),
                        None => None,
                    },
                    detail: match detail {
                        Some(d) => Some(d@),
                        None => None,
                    },
                    description: description@,
                }
            },
            StorageFailure::RowNotFound => StorageFailureView::RowNotFound,
            StorageFailure::Other { description } => StorageFailureView::Other {
                description: description@,
            },
        }
    }
}

/// A database failure is the store's exclusion-constraint violation when
/// it carries this SQLSTATE code, schema and table.
pub open spec fn is_exclusion_violation(
    code: Seq<char>,
    schema: Option<Seq<char>>,
    table: Option<Seq<char>>,
) -> bool {
    code == "23P01"@ && schema == Some("rsvp"@) && table == Some("reservations"@)
}

/// How a storage failure is routed into the taxonomy: an
/// exclusion-constraint violation becomes the parsed conflict, a missing
/// row becomes `NotFound`, and everything else is wrapped verbatim.
pub open spec fn classified_error(f: StorageFailureView) -> ErrorView {
    match f {
        StorageFailureView::Database { code, schema, table, detail, description } => {
            if is_exclusion_violation(code, schema, table) {
                match detail {
                    Some(d) => ErrorView::ConflictReservation(info_of_detail(d)),
                    None => ErrorView::DatabaseError(description),
                }
            } else {
                ErrorView::DatabaseError(description)
            }
        },
        StorageFailureView::RowNotFound => ErrorView::NotFound,
        StorageFailureView::Other { description } => ErrorView::DatabaseError(description),
    }
}

/// Routes a backend storage failure into the error taxonomy. An
/// exclusion violation always carries its detail text; the caller hands
/// the failure over unabridged.
pub fn classify_storage_failure(f: StorageFailure) -> (e: Error)
    requires
        match f@ {
            StorageFailureView::Database { code, schema, table, detail, .. } => {
                is_exclusion_violation(code, schema, table) ==> detail is Some
            },
            _ => true,
        },
    ensures
        e@ == classified_error(f@),
{
    match f {
        StorageFailure::Database { code, schema, table, detail, description } => {
            let schema_matches = match &schema {
                Some(s) => str_eq(s.as_str(), "rsvp"),
                None => false,
            };
            let table_matches = match &table {
                Some(t) => str_eq(t.as_str(), "reservations"),
                None => false,
            };
            if str_eq(code.as_str(), "23P01") && schema_matches && table_matches {
                let d = detail.unwrap();
                Error::ConflictReservation(ReservationConflictInfo::parse(d.as_str()))
            } else {
                Error::DatabaseError(description)
            }
        },
        StorageFailure::RowNotFound => Error::NotFound,
        StorageFailure::Other { description } => Error::DatabaseError(description),
    }
}

} // verus!
