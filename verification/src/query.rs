//! The search predicate over reservations and its fluent builder.
//!
//! An empty `user_id` or `resource_id` means "any"; `start` and `end`
//! bound the window of interest and are required; `status` is an
//! exact-match filter; `page`/`page_size` paginate 1-based; `desc` flips
//! the ordering by start time.

use vstd::prelude::*;

use crate::error::Error;
use crate::time::{
    get_time_range, time_range_ok, ts_norm, utc_of, vlidate_time_range, TimeRange, Timestamp,
};
use crate::Validator;

verus! {

/// A search predicate over persisted reservations.
#[derive(Debug, Clone)]
pub struct ReservationQuery {
    pub user_id: String,
    pub resource_id: String,
    pub start: Option<Timestamp>,
    pub end: Option<Timestamp>,
    pub status: i32,
    pub page: i32,
    pub page_size: i32,
    pub desc: bool,
}

/// Mathematical image of a `ReservationQuery`.
pub struct QueryView {
    pub user_id: Seq<char>,
    pub resource_id: Seq<char>,
    pub start: Option<Timestamp>,
    pub end: Option<Timestamp>,
    pub status: i32,
    pub page: i32,
    pub page_size: i32,
    pub desc: bool,
}

impl View for ReservationQuery {
    type V = QueryView;

    open spec fn view(&self) -> QueryView {
        QueryView {
            user_id: self.user_id@,
            resource_id: self.resource_id@,
            start: self.start,
            end: self.end,
            status: self.status,
            page: self.page,
            page_size: self.page_size,
            desc: self.desc,
        }
    }
}

impl ReservationQuery {
    /// The half-open window `[start, end)` this query scans.
    pub fn get_timespan(&self) -> (r: TimeRange)
        requires
            self.start matches Some(s) && ts_norm(s),
            self.end matches Some(e) && ts_norm(e),
        ensures
            self.start matches Some(s) ==> r.start == utc_of(s),
            self.end matches Some(e) ==> r.end == utc_of(e),
    {
        get_time_range(self.start.as_ref(), self.end.as_ref())
    }
}

impl Validator for ReservationQuery {
    open spec fn valid(&self) -> bool {
        time_range_ok(self@.start, self@.end)
    }

    open spec fn invalid_error(&self) -> crate::error::ErrorView {
        crate::error::ErrorView::InvalidTimespan
    }

    fn validate(&self) -> (r: Result<(), Error>) {
        match vlidate_time_range(self.start.as_ref(), self.end.as_ref()) {
            Ok(()) => Ok(()),
            Err(e) => Err(e),
        }
    }
}

/// Mathematical image of a `ReservationQueryBuilder`.
pub struct BuilderView {
    pub user_id: Option<Seq<char>>,
    pub resource_id: Option<Seq<char>>,
    pub start: Option<Timestamp>,
    pub end: Option<Timestamp>,
    pub status: Option<i32>,
    pub page: Option<i32>,
    pub page_size: Option<i32>,
    pub desc: Option<bool>,
}

/// Fluent construction of a `ReservationQuery`. Every filter field
/// defaults to its zero value; `start` and `end` are required and their
/// omission fails `build`.
#[derive(Debug, Clone)]
pub struct ReservationQueryBuilder {
    user_id: Option<String>,
    resource_id: Option<String>,
    start: Option<Timestamp>,
    end: Option<Timestamp>,
    status: Option<i32>,
    page: Option<i32>,
    page_size: Option<i32>,
    desc: Option<bool>,
}

impl View for ReservationQueryBuilder {
    type V = BuilderView;

    closed spec fn view(&self) -> BuilderView {
        BuilderView {
            user_id: match self.user_id {
                Some(ref s) => Some(s@),
                None => None,
            },
            resource_id: match self.resource_id {
                Some(ref s) => Some(s@),
                None => None,
            },
            start: self.start,
            end: self.end,
            status: self.status,
            page: self.page,
            page_size: self.page_size,
            desc: self.desc,
        }
    }
}

/// The query a builder state produces: omitted filters fall back to their
/// zero values, and both bounds must have been given.
pub open spec fn built_query(b: BuilderView) -> Option<QueryView> {
    if b.start is Some && b.end is Some {
        Some(
            QueryView {
                user_id: match b.user_id {
                    Some(s) => s,
                    None => Seq::empty(),
                },
                resource_id: match b.resource_id {
                    Some(s) => s,
                    None => Seq::empty(),
                },
                start: b.start,
                end: b.end,
                status: match b.status {
                    Some(c) => c,
                    None => 0,
                },
                page: match b.page {
                    Some(p) => p,
                    None => 0,
                },
                page_size: match b.page_size {
                    Some(p) => p,
                    None => 0,
                },
                desc: match b.desc {
                    Some(d) => d,
                    None => false,
                },
            },
        )
    } else {
        None
    }
}

impl Default for ReservationQueryBuilder {
    /// A builder with every field still unset.
    fn default() -> (r: Self)
        ensures
            r@ == (BuilderView {
                user_id: None,
                resource_id: None,
                start: None,
                end: None,
                status: None,
                page: None,
                page_size: None,
                desc: None,
            }),
    {
        ReservationQueryBuilder {
            user_id: None,
            resource_id: None,
            start: None,
            end: None,
            status: None,
            page: None,
            page_size: None,
            desc: None,
        }
    }
}

impl ReservationQueryBuilder {
    /// Sets the user filter.
    pub fn user_id(self, v: &str) -> (r: Self)
        ensures
            r@ == (BuilderView { user_id: Some(v@), ..self@ }),
    {
        ReservationQueryBuilder { user_id: Some(v.to_owned()), ..self }
    }

    /// Sets the resource filter.
    pub fn resource_id(self, v: &str) -> (r: Self)
        ensures
            r@ == (BuilderView { resource_id: Some(v@), ..self@ }),
    {
        ReservationQueryBuilder { resource_id: Some(v.to_owned()), ..self }
    }

    /// Sets the start of the window of interest.
    pub fn start(self, ts: Timestamp) -> (r: Self)
        ensures
            r@ == (BuilderView { start: Some(ts), ..self@ }),
    {
        ReservationQueryBuilder { start: Some(ts), ..self }
    }

    /// Sets the end of the window of interest.
    pub fn end(self, ts: Timestamp) -> (r: Self)
        ensures
            r@ == (BuilderView { end: Some(ts), ..self@ }),
    {
        ReservationQueryBuilder { end: Some(ts), ..self }
    }

    /// Sets the status filter by its integer code.
    pub fn status(self, c: i32) -> (r: Self)
        ensures
            r@ == (BuilderView { status: Some(c), ..self@ }),
    {
        ReservationQueryBuilder { status: Some(c), ..self }
    }

    /// Sets the 1-based page number.
    pub fn page(self, p: i32) -> (r: Self)
        ensures
            r@ == (BuilderView { page: Some(p), ..self@ }),
    {
        ReservationQueryBuilder { page: Some(p), ..self }
    }

    /// Sets the page size.
    pub fn page_size(self, p: i32) -> (r: Self)
        ensures
            r@ == (BuilderView { page_size: Some(p), ..self@ }),
    {
        ReservationQueryBuilder { page_size: Some(p), ..self }
    }

    /// Sets the ordering direction by start time.
    pub fn desc(self, d: bool) -> (r: Self)
        ensures
            r@ == (BuilderView { desc: Some(d), ..self@ }),
    {
        ReservationQueryBuilder { desc: Some(d), ..self }
    }

    /// Produces the query, failing when either bound of the required
    /// timespan was omitted.
    pub fn build(self) -> (r: Result<ReservationQuery, Error>)
        ensures
            match built_query(self@) {
                Some(q) => r matches Ok(x) && x@ == q,
                None => r matches Err(e) && e is InvalidTimespan,
            },
    {
        if self.start.is_none() || self.end.is_none() {
            return Err(Error::InvalidTimespan);
        }
        let user_id = match self.user_id {
            Some(s) => s,
            None => String::new(),
        };
        let resource_id = match self.resource_id {
            Some(s) => s,
            None => String::new(),
        };
        Ok(
            ReservationQuery {
                user_id,
                resource_id,
                start: self.start,
                end: self.end,
                status: self.status.unwrap_or(0),
                page: self.page.unwrap_or(0),
                page_size: self.page_size.unwrap_or(0),
                desc: self.desc.unwrap_or(false),
            },
        )
    }
}

} // verus!
