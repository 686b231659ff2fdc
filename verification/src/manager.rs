//! The reservation manager: the six CRUD and query operations over a
//! transactional in-memory store.
//!
//! The store keeps its records sorted by start time, addresses them by
//! minted UUID strings, and enforces the exclusion protocol: no two
//! persisted reservations on one resource overlap. Every operation is
//! specified as a transition on the abstract record sequence.

use vstd::prelude::*;

use crate::conflict::{
    ConflictInfoView, ConflictView, ReservationConflict, ReservationConflictInfo,
    ReservationWindow, WindowView,
};
use crate::error::{Error, ErrorView};
use crate::ids::{
    is_uuid_text, is_valid_reservation_id, lemma_uuid_text_injective, lemma_uuid_text_wf,
    make_uuid, uuid_text_of,
};
use crate::query::{QueryView, ReservationQuery};
use crate::reservation::{res_invalid_error, res_norm, res_valid, Reservation, ReservationView};
use crate::status::{normalize_code, ReservationStatus};
use crate::text::str_eq;
use crate::time::{ts_le, ts_lt, utc_of, Timestamp};
use crate::Validator;

verus! {

/// A reservation is addressed by its UUID string.
pub type ReservationId = String;

/// The views of a sequence of records.
pub open spec fn res_views(s: Seq<Reservation>) -> Seq<ReservationView> {
    Seq::new(s.len(), |i: int| s[i]@)
}

/// An optional timestamp, absent bounds reading as the epoch; stored
/// records always carry both bounds.
pub open spec fn ts_or_zero(o: Option<Timestamp>) -> Timestamp {
    match o {
        Some(t) => t,
        None => Timestamp { seconds: 0, nanos: 0 },
    }
}

/// The start bound of a record.
pub open spec fn start_of(rv: ReservationView) -> Timestamp {
    ts_or_zero(rv.start)
}

/// The end bound of a record.
pub open spec fn end_of(rv: ReservationView) -> Timestamp {
    ts_or_zero(rv.end)
}

/// A persisted record is well formed: a well-formed id, valid fields,
/// normalized bounds, and a status code in range.
pub open spec fn stored_wf(rv: ReservationView) -> bool {
    &&& is_uuid_text(rv.id)
    &&& res_valid(rv)
    &&& res_norm(rv)
    &&& 0 <= rv.status <= 3
}

/// Two records conflict when they claim the same resource and their
/// half-open intervals intersect.
pub open spec fn records_overlap(a: ReservationView, b: ReservationView) -> bool {
    &&& a.resource_id == b.resource_id
    &&& ts_lt(start_of(a), end_of(b))
    &&& ts_lt(start_of(b), end_of(a))
}

/// The records are sorted by start time, ascending.
pub open spec fn sorted_by_start(s: Seq<ReservationView>) -> bool {
    forall|i: int, j: int|
        0 <= i < j < s.len() ==> ts_le(start_of(#[trigger] s[i]), start_of(#[trigger] s[j]))
}

/// No two records share an id.
pub open spec fn unique_ids(s: Seq<ReservationView>) -> bool {
    forall|i: int, j: int| 0 <= i < j < s.len() ==> (#[trigger] s[i]).id != (#[trigger] s[j]).id
}

/// No two records conflict: the exclusion protocol.
pub open spec fn no_overlaps(s: Seq<ReservationView>) -> bool {
    forall|i: int, j: int|
        0 <= i < j < s.len() ==> !records_overlap(#[trigger] s[i], #[trigger] s[j])
}

/// The store invariant.
pub open spec fn store_wf(s: Seq<ReservationView>) -> bool {
    &&& forall|i: int| 0 <= i < s.len() ==> stored_wf(#[trigger] s[i])
    &&& sorted_by_start(s)
    &&& unique_ids(s)
    &&& no_overlaps(s)
}

/// The first record with the given id at or after `i`, if any.
pub open spec fn find_idx_from(s: Seq<ReservationView>, id: Seq<char>, i: int) -> Option<int>
    decreases s.len() - i,
        when 0 <= i <= s.len()
{
    if i >= s.len() {
        None
    } else if s[i].id == id {
        Some(i)
    } else {
        find_idx_from(s, id, i + 1)
    }
}

/// The first record with the given id, if any.
pub open spec fn find_idx(s: Seq<ReservationView>, id: Seq<char>) -> Option<int> {
    find_idx_from(s, id, 0)
}

/// The first record at or after `i` that conflicts with the attempt.
pub open spec fn first_conflict_from(s: Seq<ReservationView>, rv: ReservationView, i: int) -> Option<
    int,
>
    decreases s.len() - i,
        when 0 <= i <= s.len()
{
    if i >= s.len() {
        None
    } else if records_overlap(s[i], rv) {
        Some(i)
    } else {
        first_conflict_from(s, rv, i + 1)
    }
}

/// The first record that conflicts with the attempt, in store order.
pub open spec fn first_conflict(s: Seq<ReservationView>, rv: ReservationView) -> Option<int> {
    first_conflict_from(s, rv, 0)
}

/// The position a record with start `t` is inserted at: after every
/// record whose start does not exceed `t`.
pub open spec fn insert_pos_from(s: Seq<ReservationView>, t: Timestamp, i: int) -> int
    decreases s.len() - i,
        when 0 <= i <= s.len()
{
    if i >= s.len() {
        s.len() as int
    } else if ts_lt(t, start_of(s[i])) {
        i
    } else {
        insert_pos_from(s, t, i + 1)
    }
}

/// The sorted insertion position for start `t`.
pub open spec fn insert_pos(s: Seq<ReservationView>, t: Timestamp) -> int {
    insert_pos_from(s, t, 0)
}

/// The record the store persists for an accepted insert: the fresh id,
/// the normalized status code, the request's fields otherwise.
pub open spec fn stored_record(rv: ReservationView, fresh: Seq<char>) -> ReservationView {
    ReservationView { id: fresh, status: normalize_code(rv.status), ..rv }
}

/// The record handed back to the caller: the request with the fresh id
/// stamped, all other fields untouched.
pub open spec fn stamped_record(rv: ReservationView, fresh: Seq<char>) -> ReservationView {
    ReservationView { id: fresh, ..rv }
}

/// The window of a record, as conflict information reports it.
pub open spec fn window_of_record(rv: ReservationView) -> WindowView {
    WindowView { rid: rv.resource_id, start: utc_of(start_of(rv)), end: utc_of(end_of(rv)) }
}

/// The structured conflict an attempted insert raises against an
/// existing record: the attempted window first, the existing second.
pub open spec fn conflict_info_of(attempt: ReservationView, existing: ReservationView) -> ConflictInfoView {
    ConflictInfoView::Parsed(
        ConflictView { new: window_of_record(attempt), old: window_of_record(existing) },
    )
}

/// The message reported when the id space is exhausted.
pub open spec fn id_space_exhausted_message() -> Seq<char> {
    "reservation id space exhausted"@
}

/// What `reserve` does to the store and returns: validation first, then
/// the conflict scan in store order, then the insert at the sorted
/// position under the fresh id.
pub open spec fn reserve_transition(
    s: Seq<ReservationView>,
    rv: ReservationView,
    fresh: Seq<char>,
    can_assign: bool,
) -> (Seq<ReservationView>, Result<ReservationView, ErrorView>) {
    if !res_valid(rv) {
        (s, Err(res_invalid_error(rv)))
    } else {
        match first_conflict(s, rv) {
            Some(j) => (s, Err(ErrorView::ConflictReservation(conflict_info_of(rv, s[j])))),
            None => {
                if can_assign {
                    (
                        s.insert(insert_pos(s, start_of(rv)), stored_record(rv, fresh)),
                        Ok(stamped_record(rv, fresh)),
                    )
                } else {
                    (s, Err(ErrorView::DatabaseError(id_space_exhausted_message())))
                }
            },
        }
    }
}

/// What `change_status` does: a malformed id is rejected; the row is
/// updated to `CONFIRMED` only if it exists and is still `PENDING`; a
/// zero-row update surfaces as `NotFound`.
pub open spec fn change_status_transition(s: Seq<ReservationView>, id: Seq<char>) -> (
    Seq<ReservationView>,
    Result<ReservationView, ErrorView>,
) {
    if !is_uuid_text(id) {
        (s, Err(ErrorView::InvalidReservationId(id)))
    } else {
        match find_idx(s, id) {
            Some(i) => {
                if s[i].status == 1 {
                    let updated = ReservationView { status: 2, ..s[i] };
                    (s.update(i, updated), Ok(updated))
                } else {
                    (s, Err(ErrorView::NotFound))
                }
            },
            None => (s, Err(ErrorView::NotFound)),
        }
    }
}

/// What `update_note` does: a malformed id is rejected; the note of the
/// addressed row is replaced and the updated row returned.
pub open spec fn update_note_transition(
    s: Seq<ReservationView>,
    id: Seq<char>,
    note: Seq<char>,
) -> (Seq<ReservationView>, Result<ReservationView, ErrorView>) {
    if !is_uuid_text(id) {
        (s, Err(ErrorView::InvalidReservationId(id)))
    } else {
        match find_idx(s, id) {
            Some(i) => {
                let updated = ReservationView { note: note, ..s[i] };
                (s.update(i, updated), Ok(updated))
            },
            None => (s, Err(ErrorView::NotFound)),
        }
    }
}

/// What `delete` does: a malformed id is rejected; the addressed row is
/// removed if present, and a missing row is not an error.
pub open spec fn delete_transition(s: Seq<ReservationView>, id: Seq<char>) -> (
    Seq<ReservationView>,
    Result<(), ErrorView>,
) {
    if !is_uuid_text(id) {
        (s, Err(ErrorView::InvalidReservationId(id)))
    } else {
        match find_idx(s, id) {
            Some(i) => (s.remove(i), Ok(())),
            None => (s, Ok(())),
        }
    }
}

/// What `get` returns: the addressed row, or `NotFound`.
pub open spec fn get_result(s: Seq<ReservationView>, id: Seq<char>) -> Result<
    ReservationView,
    ErrorView,
> {
    if !is_uuid_text(id) {
        Err(ErrorView::InvalidReservationId(id))
    } else {
        match find_idx(s, id) {
            Some(i) => Ok(s[i]),
            None => Err(ErrorView::NotFound),
        }
    }
}

/// A record satisfies a query when each present filter matches: an empty
/// user or resource filter means "any", the record's window overlaps the
/// query window, and the status codes agree after normalization.
pub open spec fn query_matches(rv: ReservationView, q: QueryView) -> bool {
    &&& q.user_id.len() == 0 || rv.user_id == q.user_id
    &&& q.resource_id.len() == 0 || rv.resource_id == q.resource_id
    &&& ts_lt(start_of(rv), ts_or_zero(q.end))
    &&& ts_lt(ts_or_zero(q.start), end_of(rv))
    &&& rv.status == normalize_code(q.status)
}

/// The records satisfying a query, in store order.
pub open spec fn matching(s: Seq<ReservationView>, q: QueryView) -> Seq<ReservationView>
    decreases s.len(),
{
    if s.len() == 0 {
        Seq::empty()
    } else {
        let rest = matching(s.drop_last(), q);
        if query_matches(s.last(), q) {
            rest.push(s.last())
        } else {
            rest
        }
    }
}

/// Ascending order kept, or reversed for a descending query.
pub open spec fn ordered(s: Seq<ReservationView>, desc: bool) -> Seq<ReservationView> {
    if desc {
        s.reverse()
    } else {
        s
    }
}

/// 1-based pagination: a non-positive page size means no limit, pages
/// below one read as the first, and a page past the results is empty.
pub open spec fn paginate(s: Seq<ReservationView>, page: i32, page_size: i32) -> Seq<
    ReservationView,
> {
    if page_size <= 0 {
        s
    } else {
        let off = if page <= 1 {
            0
        } else {
            (page - 1) as int * page_size as int
        };
        if off >= s.len() {
            Seq::empty()
        } else if off + page_size as int >= s.len() {
            s.subrange(off, s.len() as int)
        } else {
            s.subrange(off, off + page_size as int)
        }
    }
}

/// What `query` returns: the matching records ordered by start time per
/// the query's direction and paginated, or `InvalidTimespan` when the
/// window is absent or not increasing.
pub open spec fn query_result(s: Seq<ReservationView>, q: QueryView) -> Result<
    Seq<ReservationView>,
    ErrorView,
> {
    if !crate::time::time_range_ok(q.start, q.end) {
        Err(ErrorView::InvalidTimespan)
    } else {
        Ok(paginate(ordered(matching(s, q), q.desc), q.page, q.page_size))
    }
}

/// An exec result agrees with a spec-level result, view for view.
pub open spec fn result_matches(r: Result<Reservation, Error>, v: Result<
    ReservationView,
    ErrorView,
>) -> bool {
    match (r, v) {
        (Ok(x), Ok(xv)) => x@ == xv,
        (Err(e), Err(ev)) => e@ == ev,
        _ => false,
    }
}

/// An exec unit result agrees with a spec-level unit result.
pub open spec fn unit_result_matches(r: Result<(), Error>, v: Result<(), ErrorView>) -> bool {
    match (r, v) {
        (Ok(_), Ok(_)) => true,
        (Err(e), Err(ev)) => e@ == ev,
        _ => false,
    }
}

/// An exec record-list result agrees with a spec-level one.
pub open spec fn list_result_matches(r: Result<Vec<Reservation>, Error>, v: Result<
    Seq<ReservationView>,
    ErrorView,
>) -> bool {
    match (r, v) {
        (Ok(x), Ok(xv)) => res_views(x@) == xv,
        (Err(e), Err(ev)) => e@ == ev,
        _ => false,
    }
}

/// The manager's store-facing contract: the six operations, each pinned
/// to its transition on the abstract record sequence.
pub trait Rsvp: Sized {
    /// The persisted records, in ascending start order.
    spec fn reservations(&self) -> Seq<ReservationView>;

    /// The invariant every operation preserves.
    spec fn wf(&self) -> bool;

    /// The id the next accepted insert will assign.
    spec fn fresh_id(&self) -> Seq<char>;

    /// Whether a fresh id can still be minted.
    spec fn can_assign_id(&self) -> bool;

    /// Makes a reservation: validates it, refuses it on overlap with any
    /// persisted record on the same resource, and otherwise persists it
    /// under a fresh id, which the returned record carries. A record that
    /// passes validation must carry normalized bounds: the store holds
    /// real instants, and conflict windows are reported as such.
    fn reserve(&mut self, rsvp: Reservation) -> (r: Result<Reservation, Error>)
        requires
            old(self).wf(),
            res_valid(rsvp@) ==> res_norm(rsvp@),
        ensures
            final(self).wf(),
            ({
                let t = reserve_transition(
                    old(self).reservations(),
                    rsvp@,
                    old(self).fresh_id(),
                    old(self).can_assign_id(),
                );
                final(self).reservations() == t.0 && result_matches(r, t.1)
            }),
    ;

    /// Confirms a pending reservation: the row is updated only if its
    /// status is still `PENDING`; a zero-row update surfaces as
    /// `NotFound`.
    fn change_status(&mut self, id: ReservationId) -> (r: Result<Reservation, Error>)
        requires
            old(self).wf(),
        ensures
            final(self).wf(),
            ({
                let t = change_status_transition(old(self).reservations(), id@);
                final(self).reservations() == t.0 && result_matches(r, t.1)
            }),
    ;

    /// Replaces the note of the addressed reservation.
    fn update_note(&mut self, id: ReservationId, note: String) -> (r: Result<Reservation, Error>)
        requires
            old(self).wf(),
        ensures
            final(self).wf(),
            ({
                let t = update_note_transition(old(self).reservations(), id@, note@);
                final(self).reservations() == t.0 && result_matches(r, t.1)
            }),
    ;

    /// Deletes the addressed reservation; deleting a missing row is not
    /// an error.
    fn delete(&mut self, id: ReservationId) -> (r: Result<(), Error>)
        requires
            old(self).wf(),
        ensures
            final(self).wf(),
            ({
                let t = delete_transition(old(self).reservations(), id@);
                final(self).reservations() == t.0 && unit_result_matches(r, t.1)
            }),
    ;

    /// Fetches the addressed reservation.
    fn get(&self, id: ReservationId) -> (r: Result<Reservation, Error>)
        requires
            self.wf(),
        ensures
            result_matches(r, get_result(self.reservations(), id@)),
    ;

    /// Queries the store: filters by user, resource, status and window
    /// overlap, orders by start time, and paginates.
    fn query(&self, query: ReservationQuery) -> (r: Result<Vec<Reservation>, Error>)
        requires
            self.wf(),
        ensures
            list_result_matches(r, query_result(self.reservations(), query@)),
    ;
}

/// The reservation manager over the in-memory store: records sorted by
/// start time and a counter minting fresh ids.
#[derive(Debug)]
pub struct ReservationManager {
    store: Vec<Reservation>,
    next_seq: u64,
}

impl View for ReservationManager {
    type V = Seq<ReservationView>;

    closed spec fn view(&self) -> Seq<ReservationView> {
        res_views(self.store@)
    }
}

impl ReservationManager {
    /// An empty manager.
    pub fn new() -> (r: Self)
        ensures
            r.wf(),
            r.reservations() == Seq::<ReservationView>::empty(),
            r.fresh_id() == uuid_text_of(0),
            r.can_assign_id(),
    {
        let r = ReservationManager { store: Vec::new(), next_seq: 0 };
        proof {
            assert(res_views(r.store@) =~= Seq::<ReservationView>::empty());
        }
        r
    }
}

/// Converts an empty filter string to no filter.
pub fn str_to_option(s: &str) -> (r: Option<&str>)
    ensures
        match r {
            Some(t) => s@.len() > 0 && t@ == s@,
            None => s@.len() == 0,
        },
{
    if s.is_empty() {
        None
    } else {
        Some(s)
    }
}

/// A missing record id occurs nowhere before the end of the scan.
proof fn lemma_find_idx_props(s: Seq<ReservationView>, id: Seq<char>, i: int)
    requires
        0 <= i <= s.len(),
    ensures
        match find_idx_from(s, id, i) {
            Some(j) => i <= j < s.len() && s[j].id == id && forall|k: int|
                i <= k < j ==> (#[trigger] s[k]).id != id,
            None => forall|k: int| i <= k < s.len() ==> (#[trigger] s[k]).id != id,
        },
    decreases s.len() - i,
{
    if i < s.len() && s[i].id != id {
        lemma_find_idx_props(s, id, i + 1);
    }
}

/// An absent conflict means no record overlaps the attempt.
proof fn lemma_first_conflict_props(s: Seq<ReservationView>, rv: ReservationView, i: int)
    requires
        0 <= i <= s.len(),
    ensures
        match first_conflict_from(s, rv, i) {
            Some(j) => i <= j < s.len() && records_overlap(s[j], rv) && forall|k: int|
                i <= k < j ==> !records_overlap(#[trigger] s[k], rv),
            None => forall|k: int| i <= k < s.len() ==> !records_overlap(#[trigger] s[k], rv),
        },
    decreases s.len() - i,
{
    if i < s.len() && !records_overlap(s[i], rv) {
        lemma_first_conflict_props(s, rv, i + 1);
    }
}

/// The insertion position splits the store into records starting no
/// later than `t` and records starting strictly later.
proof fn lemma_insert_pos_props(s: Seq<ReservationView>, t: Timestamp, i: int)
    requires
        0 <= i <= s.len(),
    ensures
        i <= insert_pos_from(s, t, i) <= s.len(),
        forall|k: int|
            i <= k < insert_pos_from(s, t, i) ==> !ts_lt(t, start_of(#[trigger] s[k])),
        insert_pos_from(s, t, i) < s.len() ==> ts_lt(t, start_of(s[insert_pos_from(s, t, i)])),
    decreases s.len() - i,
{
    if i < s.len() && !ts_lt(t, start_of(s[i])) {
        lemma_insert_pos_props(s, t, i + 1);
    }
}

/// Record views commute with sequence insertion.
proof fn lemma_res_views_insert(s: Seq<Reservation>, i: int, x: Reservation)
    requires
        0 <= i <= s.len(),
    ensures
        res_views(s.insert(i, x)) =~= res_views(s).insert(i, x@),
{
    s.insert_ensures(i, x);
    res_views(s).insert_ensures(i, x@);
}

/// Record views commute with sequence update.
proof fn lemma_res_views_update(s: Seq<Reservation>, i: int, x: Reservation)
    requires
        0 <= i < s.len(),
    ensures
        res_views(s.update(i, x)) =~= res_views(s).update(i, x@),
{
}

/// Record views commute with sequence removal.
proof fn lemma_res_views_remove(s: Seq<Reservation>, i: int)
    requires
        0 <= i < s.len(),
    ensures
        res_views(s.remove(i)) =~= res_views(s).remove(i),
{
    s.remove_ensures(i);
    res_views(s).remove_ensures(i);
}

/// Inserting a valid, conflict-free record at its sorted position under
/// a fresh id preserves the store invariant and id freshness.
proof fn lemma_reserve_preserves_wf(s: Seq<ReservationView>, rv: ReservationView, n: u64)
    requires
        store_wf(s),
        res_valid(rv),
        res_norm(rv),
        first_conflict(s, rv) is None,
        n < u64::MAX,
        forall|i: int|
            0 <= i < s.len() ==> exists|k: u64| k < n && (#[trigger] s[i]).id == uuid_text_of(k),
    ensures
        store_wf(s.insert(insert_pos(s, start_of(rv)), stored_record(rv, uuid_text_of(n)))),
        forall|i: int|
            0 <= i < s.insert(
                insert_pos(s, start_of(rv)),
                stored_record(rv, uuid_text_of(n)),
            ).len() ==> exists|k: u64|
                k < n + 1 && (#[trigger] s.insert(
                    insert_pos(s, start_of(rv)),
                    stored_record(rv, uuid_text_of(n)),
                )[i]).id == uuid_text_of(k),
{
    let t = start_of(rv);
    let fid = uuid_text_of(n);
    let nr = stored_record(rv, fid);
    let ip = insert_pos(s, t);
    let s2 = s.insert(ip, nr);
    lemma_insert_pos_props(s, t, 0);
    lemma_first_conflict_props(s, rv, 0);
    lemma_uuid_text_wf(n);
    s.insert_ensures(ip, nr);
    assert(start_of(nr) == t);
    assert(stored_wf(nr));
    assert(forall|x: ReservationView|
        records_overlap(x, nr) == records_overlap(x, rv) && records_overlap(nr, x)
            == records_overlap(rv, x) && records_overlap(x, rv) == records_overlap(rv, x));
    assert forall|i: int, j: int| 0 <= i < j < s2.len() implies ts_le(
        start_of(#[trigger] s2[i]),
        start_of(#[trigger] s2[j]),
    ) by {
        if j < ip {
            assert(s2[i] == s[i] && s2[j] == s[j]);
        } else if i < ip && j == ip {
            assert(s2[i] == s[i] && s2[j] == nr);
            assert(!ts_lt(t, start_of(s[i])));
        } else if i < ip && j > ip {
            assert(s2[i] == s[i] && s2[j] == s[j - 1]);
        } else if i == ip {
            assert(s2[i] == nr && s2[j] == s[j - 1]);
            assert(ip < s.len());
            assert(ts_lt(t, start_of(s[ip])));
            if j - 1 > ip {
                assert(ts_le(start_of(s[ip]), start_of(s[j - 1])));
            }
        } else {
            assert(s2[i] == s[i - 1] && s2[j] == s[j - 1]);
        }
    }
    assert forall|i: int, j: int| 0 <= i < j < s2.len() implies (#[trigger] s2[i]).id != (
    #[trigger] s2[j]).id by {
        if i == ip || j == ip {
            let oi = if i == ip {
                if j < ip {
                    j
                } else {
                    j - 1
                }
            } else {
                if i < ip {
                    i
                } else {
                    i - 1
                }
            };
            assert(0 <= oi < s.len());
            let k0 = choose|k: u64| k < n && s[oi].id == uuid_text_of(k);
            if s[oi].id == fid {
                lemma_uuid_text_injective(k0, n);
            }
        } else {
            let oi = if i < ip {
                i
            } else {
                i - 1
            };
            let oj = if j < ip {
                j
            } else {
                j - 1
            };
            assert(s2[i] == s[oi] && s2[j] == s[oj]);
        }
    }
    assert forall|i: int, j: int| 0 <= i < j < s2.len() implies !records_overlap(
        #[trigger] s2[i],
        #[trigger] s2[j],
    ) by {
        if i == ip || j == ip {
            let oi = if i == ip {
                if j < ip {
                    j
                } else {
                    j - 1
                }
            } else {
                if i < ip {
                    i
                } else {
                    i - 1
                }
            };
            assert(0 <= oi < s.len());
            assert(!records_overlap(s[oi], rv));
        } else {
            let oi = if i < ip {
                i
            } else {
                i - 1
            };
            let oj = if j < ip {
                j
            } else {
                j - 1
            };
            assert(s2[i] == s[oi] && s2[j] == s[oj]);
        }
    }
    assert forall|i: int| 0 <= i < s2.len() implies exists|k: u64|
        k < n + 1 && (#[trigger] s2[i]).id == uuid_text_of(k) by {
        if i == ip {
            assert(s2[i].id == uuid_text_of(n) && n < n + 1);
        } else {
            let oi = if i < ip {
                i
            } else {
                i - 1
            };
            let k0 = choose|k: u64| k < n && s[oi].id == uuid_text_of(k);
            assert(k0 < n + 1 && s2[i].id == uuid_text_of(k0));
        }
    }
}

/// Record views commute with appending.
proof fn lemma_res_views_push(s: Seq<Reservation>, x: Reservation)
    ensures
        res_views(s.push(x)) =~= res_views(s).push(x@),
{
}

/// Replacing a record by one that differs only in status or note
/// preserves the store invariant.
proof fn lemma_update_preserves_wf(s: Seq<ReservationView>, i: int, rv2: ReservationView)
    requires
        store_wf(s),
        0 <= i < s.len(),
        stored_wf(rv2),
        rv2.id == s[i].id,
        rv2.resource_id == s[i].resource_id,
        rv2.start == s[i].start,
        rv2.end == s[i].end,
    ensures
        store_wf(s.update(i, rv2)),
{
    let s2 = s.update(i, rv2);
    assert(forall|k: int|
        0 <= k < s2.len() ==> start_of(#[trigger] s2[k]) == start_of(s[k]) && s2[k].id == s[k].id
            && s2[k].resource_id == s[k].resource_id && end_of(s2[k]) == end_of(s[k]));
    assert forall|a: int, b: int| 0 <= a < b < s2.len() implies !records_overlap(
        #[trigger] s2[a],
        #[trigger] s2[b],
    ) by {
        assert(!records_overlap(s[a], s[b]));
        assert(records_overlap(s2[a], s2[b]) == records_overlap(s[a], s[b]));
    }
}

/// Removing a record preserves the store invariant.
proof fn lemma_remove_preserves_wf(s: Seq<ReservationView>, i: int)
    requires
        store_wf(s),
        0 <= i < s.len(),
    ensures
        store_wf(s.remove(i)),
{
    let s2 = s.remove(i);
    s.remove_ensures(i);
    assert forall|a: int, b: int| 0 <= a < b < s2.len() implies ts_le(
        start_of(#[trigger] s2[a]),
        start_of(#[trigger] s2[b]),
    ) && (#[trigger] s2[a]).id != (#[trigger] s2[b]).id && !records_overlap(s2[a], s2[b]) by {
        let oa = if a < i {
            a
        } else {
            a + 1
        };
        let ob = if b < i {
            b
        } else {
            b + 1
        };
        assert(s2[a] == s[oa] && s2[b] == s[ob]);
    }
}

/// The manager's invariant gives the store invariant on its records.
pub proof fn lemma_wf_implies_store_wf(m: &ReservationManager)
    requires
        m.wf(),
    ensures
        store_wf(m.reservations()),
{
}

/// Exclusion: any two records the store persists on the same resource
/// claim disjoint half-open intervals.
pub proof fn lemma_reservations_disjoint(m: &ReservationManager, i: int, j: int)
    requires
        m.wf(),
        0 <= i < m.reservations().len(),
        0 <= j < m.reservations().len(),
        i != j,
        m.reservations()[i].resource_id == m.reservations()[j].resource_id,
    ensures
        !(ts_lt(start_of(m.reservations()[i]), end_of(m.reservations()[j])) && ts_lt(
            start_of(m.reservations()[j]),
            end_of(m.reservations()[i]),
        )),
{
    let s = m.reservations();
    if i < j {
        assert(!records_overlap(s[i], s[j]));
    } else {
        assert(!records_overlap(s[j], s[i]));
    }
}

/// A record with the given id at `i`, and none before it, is the one the
/// scan finds.
proof fn lemma_find_idx_determined(s: Seq<ReservationView>, id: Seq<char>, i: int, k: int)
    requires
        0 <= k <= i < s.len(),
        s[i].id == id,
        forall|m: int| k <= m < i ==> (#[trigger] s[m]).id != id,
    ensures
        find_idx_from(s, id, k) == Some(i),
    decreases i - k,
{
    if k < i {
        lemma_find_idx_determined(s, id, i, k + 1);
    }
}

/// Confirm idempotence signal: once `change_status` has confirmed a
/// reservation, a second `change_status` on the same id reports
/// `NotFound`.
pub proof fn lemma_change_status_idempotent_signal(s: Seq<ReservationView>, id: Seq<char>)
    requires
        store_wf(s),
        change_status_transition(s, id).1 is Ok,
    ensures
        change_status_transition(change_status_transition(s, id).0, id).1 == Err::<
            ReservationView,
            ErrorView,
        >(ErrorView::NotFound),
{
    lemma_find_idx_props(s, id, 0);
    let i = match find_idx(s, id) {
        Some(i) => i,
        None => 0,
    };
    let updated = ReservationView { status: 2, ..s[i] };
    let s2 = s.update(i, updated);
    assert(change_status_transition(s, id).0 == s2);
    assert(s2[i].id == id);
    assert(forall|m: int| 0 <= m < i ==> (#[trigger] s2[m]).id == s[m].id);
    lemma_find_idx_determined(s2, id, i, 0);
    assert(find_idx(s2, id) == Some(i));
    assert(s2[i].status == 2);
}

/// A sorted store yields matches in sorted order, the last match
/// starting no later than the last record.
proof fn lemma_matching_sorted(s: Seq<ReservationView>, q: QueryView)
    requires
        sorted_by_start(s),
    ensures
        sorted_by_start(matching(s, q)),
        matching(s, q).len() > 0 ==> s.len() > 0 && ts_le(
            start_of(matching(s, q).last()),
            start_of(s.last()),
        ),
    decreases s.len(),
{
    if s.len() == 0 {
        return ;
    }
    let s0 = s.drop_last();
    let m0 = matching(s0, q);
    assert(sorted_by_start(s0)) by {
        assert(forall|a: int, b: int|
            0 <= a < b < s0.len() ==> s0[a] == s[a] && s0[b] == s[b]);
    }
    lemma_matching_sorted(s0, q);
    let m = matching(s, q);
    if query_matches(s.last(), q) {
        assert(m == m0.push(s.last()));
        assert forall|a: int, b: int| 0 <= a < b < m.len() implies ts_le(
            start_of(#[trigger] m[a]),
            start_of(#[trigger] m[b]),
        ) by {
            if b < m0.len() {
                assert(m[a] == m0[a] && m[b] == m0[b]);
            } else {
                assert(m[b] == s.last());
                assert(m[a] == m0[a]);
                assert(m0.len() > 0);
                assert(s0.len() > 0);
                if a < m0.len() - 1 {
                    assert(ts_le(start_of(m0[a]), start_of(m0.last())));
                }
                assert(ts_le(start_of(m0.last()), start_of(s0.last())));
                assert(ts_le(start_of(s0.last()), start_of(s.last()))) by {
                    assert(s0.last() == s[s.len() - 2]);
                    assert(s.last() == s[s.len() - 1]);
                }
            }
        }
    } else {
        assert(m == m0);
        if m.len() > 0 {
            assert(s0.len() > 0);
            assert(ts_le(start_of(s0.last()), start_of(s.last()))) by {
                assert(s0.last() == s[s.len() - 2]);
                assert(s.last() == s[s.len() - 1]);
            }
        }
    }
}

/// Query monotonicity: with `desc` false the start times of a query's
/// results are non-decreasing, with `desc` true non-increasing.
pub proof fn lemma_query_ordering(s: Seq<ReservationView>, q: QueryView, a: int, b: int)
    requires
        store_wf(s),
    ensures
        match query_result(s, q) {
            Ok(l) => 0 <= a < b < l.len() ==> if q.desc {
                ts_le(start_of(l[b]), start_of(l[a]))
            } else {
                ts_le(start_of(l[a]), start_of(l[b]))
            },
            Err(_) => true,
        },
{
    if !crate::time::time_range_ok(q.start, q.end) {
        return ;
    }
    let m = matching(s, q);
    lemma_matching_sorted(s, q);
    let o = ordered(m, q.desc);
    if q.desc {
        assert forall|x: int, y: int| 0 <= x < y < o.len() implies ts_le(
            start_of(#[trigger] o[y]),
            start_of(#[trigger] o[x]),
        ) by {
            assert(o[x] == m[m.len() - 1 - x]);
            assert(o[y] == m[m.len() - 1 - y]);
            assert(ts_le(start_of(m[m.len() - 1 - y]), start_of(m[m.len() - 1 - x])));
        }
    }
    let l = paginate(o, q.page, q.page_size);
    if 0 <= a && a < b && b < l.len() {
        if q.page_size <= 0 {
            assert(l == o);
        } else {
            let off = if q.page <= 1 {
                0
            } else {
                (q.page - 1) as int * q.page_size as int
            };
            assert(l[a] == o[off + a] && l[b] == o[off + b]);
        }
    }
}

/// Finds the first record with the given id, scanning in store order.
fn find_by_id(store: &Vec<Reservation>, id: &str) -> (r: Option<usize>)
    ensures
        match find_idx(res_views(store@), id@) {
            Some(i) => r matches Some(x) && x == i,
            None => r is None,
        },
{
    let n = store.len();
    let mut i: usize = 0;
    loop
        invariant
            i <= n,
            n == store@.len(),
            find_idx(res_views(store@), id@) == find_idx_from(res_views(store@), id@, i as int),
        decreases n - i,
    {
        if i == n {
            return None;
        }
        proof {
            assert(res_views(store@)[i as int] == store@[i as int]@);
        }
        if str_eq(store[i].id.as_str(), id) {
            return Some(i);
        }
        i += 1;
    }
}

/// Finds the first persisted record conflicting with a valid attempt,
/// scanning in store order.
fn find_first_conflict(store: &Vec<Reservation>, rsvp: &Reservation) -> (r: Option<usize>)
    requires
        store_wf(res_views(store@)),
        res_valid(rsvp@),
    ensures
        match first_conflict(res_views(store@), rsvp@) {
            Some(i) => r matches Some(x) && x == i,
            None => r is None,
        },
{
    let n = store.len();
    let rs = rsvp.start.unwrap();
    let re = rsvp.end.unwrap();
    let mut i: usize = 0;
    loop
        invariant
            i <= n,
            n == store@.len(),
            store_wf(res_views(store@)),
            rs == start_of(rsvp@),
            re == end_of(rsvp@),
            first_conflict(res_views(store@), rsvp@) == first_conflict_from(
                res_views(store@),
                rsvp@,
                i as int,
            ),
        decreases n - i,
    {
        if i == n {
            return None;
        }
        proof {
            assert(res_views(store@)[i as int] == store@[i as int]@);
            assert(stored_wf(res_views(store@)[i as int]));
        }
        let same_resource = str_eq(store[i].resource_id.as_str(), rsvp.resource_id.as_str());
        let es = store[i].start.unwrap();
        let ee = store[i].end.unwrap();
        if same_resource && crate::time::ts_before(&es, &re) && crate::time::ts_before(&rs, &ee) {
            return Some(i);
        }
        i += 1;
    }
}

/// Finds the sorted insertion position for a record starting at `t`.
fn find_insert_pos(store: &Vec<Reservation>, t: &Timestamp) -> (r: usize)
    requires
        store_wf(res_views(store@)),
    ensures
        r == insert_pos(res_views(store@), *t),
        r <= store@.len(),
{
    let n = store.len();
    let mut i: usize = 0;
    loop
        invariant
            i <= n,
            n == store@.len(),
            store_wf(res_views(store@)),
            insert_pos(res_views(store@), *t) == insert_pos_from(res_views(store@), *t, i as int),
        decreases n - i,
    {
        if i == n {
            return i;
        }
        proof {
            assert(res_views(store@)[i as int] == store@[i as int]@);
            assert(stored_wf(res_views(store@)[i as int]));
        }
        let es = store[i].start.unwrap();
        if crate::time::ts_before(t, &es) {
            return i;
        }
        i += 1;
    }
}

impl Rsvp for ReservationManager {
    closed spec fn reservations(&self) -> Seq<ReservationView> {
        res_views(self.store@)
    }

    closed spec fn wf(&self) -> bool {
        &&& store_wf(res_views(self.store@))
        &&& forall|i: int|
            0 <= i < self.store@.len() ==> exists|k: u64|
                k < self.next_seq && (#[trigger] res_views(self.store@)[i]).id == uuid_text_of(k)
    }

    closed spec fn fresh_id(&self) -> Seq<char> {
        uuid_text_of(self.next_seq)
    }

    closed spec fn can_assign_id(&self) -> bool {
        self.next_seq < u64::MAX
    }

    fn reserve(&mut self, rsvp: Reservation) -> (r: Result<Reservation, Error>) {
        match rsvp.validate() {
            Err(e) => {
                return Err(e);
            },
            Ok(()) => {},
        }
        match find_first_conflict(&self.store, &rsvp) {
            Some(j) => {
                proof {
                    lemma_first_conflict_props(res_views(self.store@), rsvp@, 0);
                    assert(res_views(self.store@)[j as int] == self.store@[j as int]@);
                    assert(stored_wf(res_views(self.store@)[j as int]));
                }
                let attempt_window = ReservationWindow {
                    rid: rsvp.resource_id.clone(),
                    start: crate::time::timestamp_to_utc_time(&rsvp.start.unwrap()),
                    end: crate::time::timestamp_to_utc_time(&rsvp.end.unwrap()),
                };
                let existing_window = ReservationWindow {
                    rid: self.store[j].resource_id.clone(),
                    start: crate::time::timestamp_to_utc_time(&self.store[j].start.unwrap()),
                    end: crate::time::timestamp_to_utc_time(&self.store[j].end.unwrap()),
                };
                return Err(
                    Error::ConflictReservation(
                        ReservationConflictInfo::Parsed(
                            ReservationConflict { new: attempt_window, old: existing_window },
                        ),
                    ),
                );
            },
            None => {},
        }
        if self.next_seq == u64::MAX {
            return Err(Error::DatabaseError("reservation id space exhausted".to_owned()));
        }
        let ghost s0 = res_views(self.store@);
        let ghost n0 = self.next_seq;
        let id = make_uuid(self.next_seq);
        let stored = Reservation {
            id: id.clone(),
            user_id: rsvp.user_id.clone(),
            resource_id: rsvp.resource_id.clone(),
            start: rsvp.start,
            end: rsvp.end,
            note: rsvp.note.clone(),
            status: ReservationStatus::from_i32(rsvp.status).to_i32(),
        };
        proof {
            assert(stored@ == stored_record(rsvp@, uuid_text_of(n0)));
        }
        let ip = find_insert_pos(&self.store, &rsvp.start.unwrap());
        proof {
            lemma_reserve_preserves_wf(s0, rsvp@, n0);
            lemma_res_views_insert(self.store@, ip as int, stored);
        }
        self.store.insert(ip, stored);
        self.next_seq = self.next_seq + 1;
        let mut out = rsvp;
        out.id = id;
        proof {
            assert(out@ == stamped_record(rsvp@, uuid_text_of(n0)));
        }
        Ok(out)
    }

    fn change_status(&mut self, id: ReservationId) -> (r: Result<Reservation, Error>) {
        if !is_valid_reservation_id(id.as_str()) {
            return Err(Error::InvalidReservationId(id));
        }
        let found = find_by_id(&self.store, id.as_str());
        proof {
            lemma_find_idx_props(res_views(self.store@), id@, 0);
        }
        match found {
            Some(i) => {
                proof {
                    assert(res_views(self.store@)[i as int] == self.store@[i as int]@);
                }
                if self.store[i].status == 1 {
                    let ghost s0 = res_views(self.store@);
                    let mut rec = self.store.remove(i);
                    rec.status = 2;
                    let out = rec.duplicate();
                    proof {
                        lemma_res_views_remove(old(self).store@, i as int);
                        lemma_res_views_insert(self.store@, i as int, rec);
                        assert(s0.remove(i as int).insert(i as int, rec@) =~= s0.update(
                            i as int,
                            rec@,
                        ));
                        assert(rec@ == (ReservationView { status: 2, ..s0[i as int] }));
                        lemma_update_preserves_wf(s0, i as int, rec@);
                    }
                    self.store.insert(i, rec);
                    proof {
                        let s2 = res_views(self.store@);
                        assert(s2 =~= s0.update(i as int, rec@));
                        assert forall|j: int| 0 <= j < self.store@.len() implies exists|k: u64|
                            k < self.next_seq && (#[trigger] res_views(self.store@)[j]).id
                                == uuid_text_of(k) by {
                            let k0 = choose|k: u64|
                                k < old(self).next_seq && s0[j].id == uuid_text_of(k);
                            assert(res_views(self.store@)[j].id == s0[j].id);
                            assert(k0 < self.next_seq && res_views(self.store@)[j].id
                                == uuid_text_of(k0));
                        }
                    }
                    Ok(out)
                } else {
                    Err(Error::NotFound)
                }
            },
            None => Err(Error::NotFound),
        }
    }

    fn update_note(&mut self, id: ReservationId, note: String) -> (r: Result<Reservation, Error>) {
        if !is_valid_reservation_id(id.as_str()) {
            return Err(Error::InvalidReservationId(id));
        }
        let found = find_by_id(&self.store, id.as_str());
        proof {
            lemma_find_idx_props(res_views(self.store@), id@, 0);
        }
        match found {
            Some(i) => {
                proof {
                    assert(res_views(self.store@)[i as int] == self.store@[i as int]@);
                }
                let ghost s0 = res_views(self.store@);
                let mut rec = self.store.remove(i);
                rec.note = note;
                let out = rec.duplicate();
                proof {
                    lemma_res_views_remove(old(self).store@, i as int);
                    lemma_res_views_insert(self.store@, i as int, rec);
                    assert(s0.remove(i as int).insert(i as int, rec@) =~= s0.update(
                        i as int,
                        rec@,
                    ));
                    assert(rec@ == (ReservationView { note: note@, ..s0[i as int] }));
                    lemma_update_preserves_wf(s0, i as int, rec@);
                }
                self.store.insert(i, rec);
                proof {
                    let s2 = res_views(self.store@);
                    assert(s2 =~= s0.update(i as int, rec@));
                    assert forall|j: int| 0 <= j < self.store@.len() implies exists|k: u64|
                        k < self.next_seq && (#[trigger] res_views(self.store@)[j]).id
                            == uuid_text_of(k) by {
                        let k0 = choose|k: u64|
                            k < old(self).next_seq && s0[j].id == uuid_text_of(k);
                        assert(res_views(self.store@)[j].id == s0[j].id);
                        assert(k0 < self.next_seq && res_views(self.store@)[j].id == uuid_text_of(
                            k0,
                        ));
                    }
                }
                Ok(out)
            },
            None => Err(Error::NotFound),
        }
    }

    fn delete(&mut self, id: ReservationId) -> (r: Result<(), Error>) {
        if !is_valid_reservation_id(id.as_str()) {
            return Err(Error::InvalidReservationId(id));
        }
        let found = find_by_id(&self.store, id.as_str());
        proof {
            lemma_find_idx_props(res_views(self.store@), id@, 0);
        }
        match found {
            Some(i) => {
                let ghost s0 = res_views(self.store@);
                proof {
                    lemma_res_views_remove(self.store@, i as int);
                    lemma_remove_preserves_wf(s0, i as int);
                    s0.remove_ensures(i as int);
                }
                let _removed = self.store.remove(i);
                proof {
                    assert(res_views(self.store@) =~= s0.remove(i as int));
                    assert forall|j: int| 0 <= j < self.store@.len() implies exists|k: u64|
                        k < self.next_seq && (#[trigger] res_views(self.store@)[j]).id
                            == uuid_text_of(k) by {
                        let oj = if j < i as int {
                            j
                        } else {
                            j + 1
                        };
                        let k0 = choose|k: u64|
                            k < old(self).next_seq && s0[oj].id == uuid_text_of(k);
                        assert(res_views(self.store@)[j].id == s0[oj].id);
                        assert(k0 < self.next_seq && res_views(self.store@)[j].id == uuid_text_of(
                            k0,
                        ));
                    }
                }
                Ok(())
            },
            None => Ok(()),
        }
    }

    fn get(&self, id: ReservationId) -> (r: Result<Reservation, Error>) {
        if !is_valid_reservation_id(id.as_str()) {
            return Err(Error::InvalidReservationId(id));
        }
        let found = find_by_id(&self.store, id.as_str());
        proof {
            lemma_find_idx_props(res_views(self.store@), id@, 0);
        }
        match found {
            Some(i) => {
                proof {
                    assert(res_views(self.store@)[i as int] == self.store@[i as int]@);
                }
                Ok(self.store[i].duplicate())
            },
            None => Err(Error::NotFound),
        }
    }

    fn query(&self, query: ReservationQuery) -> (r: Result<Vec<Reservation>, Error>) {
        match query.validate() {
            Err(e) => {
                return Err(e);
            },
            Ok(()) => {},
        }
        let n = self.store.len();
        let qs = query.start.unwrap();
        let qe = query.end.unwrap();
        let qstatus = ReservationStatus::from_i32(query.status).to_i32();
        let mut found: Vec<Reservation> = Vec::new();
        let mut i: usize = 0;
        proof {
            assert(res_views(self.store@).subrange(0, 0) =~= Seq::<ReservationView>::empty());
            assert(res_views(found@) =~= Seq::<ReservationView>::empty());
        }
        while i < n
            invariant
                i <= n,
                n == self.store@.len(),
                store_wf(res_views(self.store@)),
                qs == ts_or_zero(query@.start),
                qe == ts_or_zero(query@.end),
                qstatus == normalize_code(query@.status),
                res_views(found@) == matching(
                    res_views(self.store@).subrange(0, i as int),
                    query@,
                ),
            decreases n - i,
        {
            let ghost pre = res_views(self.store@).subrange(0, i as int);
            let ghost pre2 = res_views(self.store@).subrange(0, i + 1);
            let ghost rv = res_views(self.store@)[i as int];
            proof {
                assert(rv == self.store@[i as int]@);
                assert(stored_wf(rv));
                assert(pre2.drop_last() =~= pre);
                assert(pre2.last() == rv);
            }
            let user_ok = match str_to_option(query.user_id.as_str()) {
                None => true,
                Some(u) => str_eq(self.store[i].user_id.as_str(), u),
            };
            let resource_ok = match str_to_option(query.resource_id.as_str()) {
                None => true,
                Some(v) => str_eq(self.store[i].resource_id.as_str(), v),
            };
            let rs = self.store[i].start.unwrap();
            let re = self.store[i].end.unwrap();
            let overlap_ok = crate::time::ts_before(&rs, &qe) && crate::time::ts_before(&qs, &re);
            let status_ok = self.store[i].status == qstatus;
            proof {
                assert((user_ok && resource_ok && overlap_ok && status_ok) == query_matches(
                    rv,
                    query@,
                ));
                assert(matching(pre2, query@) == if query_matches(rv, query@) {
                    matching(pre, query@).push(rv)
                } else {
                    matching(pre, query@)
                });
            }
            if user_ok && resource_ok && overlap_ok && status_ok {
                proof {
                    lemma_res_views_push(found@, self.store@[i as int]);
                }
                let rec = self.store[i].duplicate();
                found.push(rec);
            }
            i += 1;
        }
        proof {
            assert(res_views(self.store@).subrange(0, n as int) =~= res_views(self.store@));
        }
        let ghost asc = res_views(found@);
        let ordered_vec: Vec<Reservation>;
        if query.desc {
            let mut src = found;
            let mut rev: Vec<Reservation> = Vec::new();
            proof {
                assert(res_views(rev@) =~= asc.reverse().subrange(0, 0));
                assert(res_views(src@) =~= asc.subrange(0, src@.len() as int));
            }
            loop
                invariant
                    src@.len() + rev@.len() == asc.len(),
                    res_views(src@) == asc.subrange(0, src@.len() as int),
                    res_views(rev@) == asc.reverse().subrange(0, rev@.len() as int),
                ensures
                    src@.len() == 0,
                    res_views(rev@) == asc.reverse().subrange(0, rev@.len() as int),
                    rev@.len() == asc.len(),
                decreases src@.len(),
            {
                let ghost sl = src@.len() as int;
                let ghost rl = rev@.len() as int;
                let ghost srcpre = src@;
                match src.pop() {
                    Some(x) => {
                        proof {
                            assert(x == srcpre[sl - 1]);
                            assert(x@ == res_views(srcpre)[sl - 1]);
                            assert(x@ == asc[sl - 1]);
                            assert(asc.reverse()[rl] == asc[asc.len() - 1 - rl]);
                            lemma_res_views_push(rev@, x);
                            assert(res_views(src@) =~= asc.subrange(0, src@.len() as int));
                        }
                        rev.push(x);
                        proof {
                            assert(res_views(rev@) =~= asc.reverse().subrange(
                                0,
                                rev@.len() as int,
                            ));
                        }
                    },
                    None => {
                        break ;
                    },
                }
            }
            proof {
                assert(asc.reverse().subrange(0, asc.reverse().len() as int) =~= asc.reverse());
                assert(res_views(rev@) =~= asc.reverse());
            }
            ordered_vec = rev;
        } else {
            ordered_vec = found;
        }
        let ghost ord = ordered(asc, query@.desc);
        proof {
            assert(res_views(ordered_vec@) == ord);
        }
        if query.page_size <= 0 {
            return Ok(ordered_vec);
        }
        let len = ordered_vec.len();
        let off64: u64 = if query.page <= 1 {
            0
        } else {
            proof {
                assert(((query.page - 1) as u64) * ((query.page_size) as u64)
                    < 0x4000_0000_0000_0000) by (nonlinear_arith)
                    requires
                        1 <= ((query.page - 1) as u64),
                        ((query.page - 1) as u64) < 0x8000_0000,
                        1 <= ((query.page_size) as u64),
                        ((query.page_size) as u64) < 0x8000_0000;
            }
            (query.page - 1) as u64 * (query.page_size as u64)
        };
        if off64 >= len as u64 {
            let empty_vec: Vec<Reservation> = Vec::new();
            proof {
                assert(res_views(empty_vec@) =~= Seq::<ReservationView>::empty());
                assert(paginate(ord, query@.page, query@.page_size) =~= Seq::<
                    ReservationView,
                >::empty());
            }
            return Ok(empty_vec);
        }
        let off = off64 as usize;
        let take: usize = query.page_size as usize;
        let end: usize = if len - off <= take {
            len
        } else {
            off + take
        };
        let mut page_vec: Vec<Reservation> = Vec::new();
        let mut k = off;
        proof {
            assert(res_views(page_vec@) =~= ord.subrange(off as int, off as int));
        }
        while k < end
            invariant
                off <= k <= end <= ordered_vec@.len(),
                ord == res_views(ordered_vec@),
                res_views(page_vec@) == ord.subrange(off as int, k as int),
            decreases end - k,
        {
            proof {
                lemma_res_views_push(page_vec@, ordered_vec@[k as int]);
                assert(ord.subrange(off as int, k + 1) =~= ord.subrange(off as int, k as int).push(
                    ord[k as int],
                ));
                assert(ord[k as int] == ordered_vec@[k as int]@);
            }
            let rec = ordered_vec[k].duplicate();
            page_vec.push(rec);
            k += 1;
        }
        proof {
            assert(paginate(ord, query@.page, query@.page_size) == ord.subrange(
                off as int,
                end as int,
            ));
        }
        Ok(page_vec)
    }
}

} // verus!
