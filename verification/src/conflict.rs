//! Structured conflict information.
//!
//! When the store rejects an insert because two reservations on one
//! resource would overlap, it reports a detail string naming the attempted
//! and the pre-existing `(resource_id, timespan)` keys. The parser in this
//! module turns that detail into a structured value, degrading to the raw
//! string whenever the detail does not have the expected shape.

use vstd::prelude::*;

use crate::time::UtcDateTime;

verus! {

/// One `(resource_id, timespan)` key surfaced in a conflict detail: the
/// resource and the half-open window claimed on it.
#[derive(Debug, Clone)]
pub struct ReservationWindow {
    pub rid: String,
    pub start: UtcDateTime,
    pub end: UtcDateTime,
}

/// The two windows of an interval-overlap rejection: the window of the
/// attempted insert and the window of the row already in the store.
#[derive(Debug, Clone)]
pub struct ReservationConflict {
    pub new: ReservationWindow,
    pub old: ReservationWindow,
}

/// A conflict detail either parsed into both windows or retained verbatim.
#[derive(Debug, Clone)]
pub enum ReservationConflictInfo {
    Parsed(ReservationConflict),
    Unparsed(String),
}

/// Mathematical image of a `ReservationWindow`.
pub struct WindowView {
    pub rid: Seq<char>,
    pub start: UtcDateTime,
    pub end: UtcDateTime,
}

/// Mathematical image of a `ReservationConflict`.
pub struct ConflictView {
    pub new: WindowView,
    pub old: WindowView,
}

/// Mathematical image of a `ReservationConflictInfo`.
pub enum ConflictInfoView {
    Parsed(ConflictView),
    Unparsed(Seq<char>),
}

impl View for ReservationWindow {
    type V = WindowView;

    open spec fn view(&self) -> WindowView {
        WindowView { rid: self.rid@, start: self.start, end: self.end }
    }
}

impl View for ReservationConflict {
    type V = ConflictView;

    open spec fn view(&self) -> ConflictView {
        ConflictView { new: self.new@, old: self.old@ }
    }
}

impl View for ReservationConflictInfo {
    type V = ConflictInfoView;

    open spec fn view(&self) -> ConflictInfoView {
        match self {
            ReservationConflictInfo::Parsed(c) => ConflictInfoView::Parsed(c@),
            ReservationConflictInfo::Unparsed(s) => ConflictInfoView::Unparsed(s@),
        }
    }
}

impl PartialEq for ReservationWindow {
    fn eq(&self, other: &Self) -> (r: bool) {
        self.rid == other.rid && self.start == other.start && self.end == other.end
    }
}

impl vstd::std_specs::cmp::PartialEqSpecImpl for ReservationWindow {
    open spec fn obeys_eq_spec() -> bool {
        true
    }

    open spec fn eq_spec(&self, other: &Self) -> bool {
        self@ == other@
    }
}

impl PartialEq for ReservationConflict {
    fn eq(&self, other: &Self) -> (r: bool) {
        self.new == other.new && self.old == other.old
    }
}

impl vstd::std_specs::cmp::PartialEqSpecImpl for ReservationConflict {
    open spec fn obeys_eq_spec() -> bool {
        true
    }

    open spec fn eq_spec(&self, other: &Self) -> bool {
        self@ == other@
    }
}

impl PartialEq for ReservationConflictInfo {
    fn eq(&self, other: &Self) -> (r: bool) {
        match (self, other) {
            (ReservationConflictInfo::Parsed(a), ReservationConflictInfo::Parsed(b)) => *a == *b,
            (ReservationConflictInfo::Unparsed(a), ReservationConflictInfo::Unparsed(b)) => *a
                == *b,
            _ => false,
        }
    }
}

impl vstd::std_specs::cmp::PartialEqSpecImpl for ReservationConflictInfo {
    open spec fn obeys_eq_spec() -> bool {
        true
    }

    open spec fn eq_spec(&self, other: &Self) -> bool {
        self@ == other@
    }
}

// ---------------------------------------------------------------------
// The detail grammar.
//
// A well-shaped detail holds exactly two occurrences of the fragment
//
//     (k1, k2)=(v1, [v2
//
// where `k1`, `k2` and `v1` are non-empty runs of letters, digits, `_`
// and `-`, blanks may surround each comma, and `v2` is a non-empty run
// of characters other than `)` and `]`. Every quantified run is maximal
// and each run is bounded by a character disjoint from its class, so the
// match at a position is unique and needs no backtracking.
// ---------------------------------------------------------------------
/// A character of a captured key or bare value: letter, digit, `_`, `-`.
pub open spec fn is_word_char(c: char) -> bool {
    ||| ('a' as u32) <= (c as u32) && (c as u32) <= ('z' as u32)
    ||| ('A' as u32) <= (c as u32) && (c as u32) <= ('Z' as u32)
    ||| ('0' as u32) <= (c as u32) && (c as u32) <= ('9' as u32)
    ||| c == '_'
    ||| c == '-'
}

/// A blank the grammar allows around the commas.
pub open spec fn is_blank_char(c: char) -> bool {
    c == ' ' || c == '\t' || c == '\n' || c == '\r' || c == '\u{b}' || c == '\u{c}'
}

/// A character a bracketed value may hold: anything but `)` and `]`.
pub open spec fn is_value_char(c: char) -> bool {
    c != ')' && c != ']'
}

/// First position at or after `i` whose character is not a word
/// character, or the end of the text.
pub open spec fn word_end(s: Seq<char>, i: int) -> int
    decreases s.len() - i,
        when 0 <= i <= s.len()
{
    if i >= s.len() || !is_word_char(s[i]) {
        i
    } else {
        word_end(s, i + 1)
    }
}

/// First position at or after `i` whose character is not a blank, or the
/// end of the text.
pub open spec fn blank_end(s: Seq<char>, i: int) -> int
    decreases s.len() - i,
        when 0 <= i <= s.len()
{
    if i >= s.len() || !is_blank_char(s[i]) {
        i
    } else {
        blank_end(s, i + 1)
    }
}

/// First position at or after `i` whose character closes a bracketed
/// value, or the end of the text.
pub open spec fn value_end(s: Seq<char>, i: int) -> int
    decreases s.len() - i,
        when 0 <= i <= s.len()
{
    if i >= s.len() || !is_value_char(s[i]) {
        i
    } else {
        value_end(s, i + 1)
    }
}

/// The scanners stay within bounds and never move backwards.
proof fn lemma_scan_bounds(s: Seq<char>, i: int)
    requires
        0 <= i <= s.len(),
    ensures
        i <= word_end(s, i) <= s.len(),
        i <= blank_end(s, i) <= s.len(),
        i <= value_end(s, i) <= s.len(),
    decreases s.len() - i,
{
    if i < s.len() {
        lemma_scan_bounds(s, i + 1);
    }
}

/// A captured timespan value with every double quote removed.
pub open spec fn strip_quotes(v: Seq<char>) -> Seq<char> {
    v.filter(|c: char| c != '"')
}

/// Removing quotes commutes with appending one character.
proof fn lemma_strip_quotes_push(v: Seq<char>, c: char)
    ensures
        strip_quotes(v.push(c)) == if c != '"' {
            strip_quotes(v).push(c)
        } else {
            strip_quotes(v)
        },
{
    reveal(Seq::filter);
    assert(v.push(c).drop_last() =~= v);
}

/// The position of the first comma at or after `i`, if any.
pub open spec fn first_comma(s: Seq<char>, i: int) -> Option<int>
    decreases s.len() - i,
        when 0 <= i <= s.len()
{
    if i >= s.len() {
        None
    } else if s[i] == ',' {
        Some(i)
    } else {
        first_comma(s, i + 1)
    }
}

/// Last position at or before `j` such that every character from it up
/// to `j` is a blank.
pub open spec fn trim_end_idx(s: Seq<char>, j: int) -> int
    decreases j,
        when 0 <= j <= s.len()
{
    if j <= 0 || !is_blank_char(s[j - 1]) {
        j
    } else {
        trim_end_idx(s, j - 1)
    }
}

/// The text with leading and trailing blanks removed; all blanks leave
/// nothing.
pub open spec fn trim_text(s: Seq<char>) -> Seq<char> {
    if blank_end(s, 0) == s.len() {
        Seq::empty()
    } else {
        s.subrange(blank_end(s, 0), trim_end_idx(s, s.len() as int))
    }
}

/// The blank scanner stops on a non-blank character.
proof fn lemma_blank_end_stop(s: Seq<char>, i: int)
    requires
        0 <= i <= s.len(),
    ensures
        blank_end(s, i) < s.len() ==> !is_blank_char(s[blank_end(s, i)]),
    decreases s.len() - i,
{
    if i < s.len() && is_blank_char(s[i]) {
        lemma_blank_end_stop(s, i + 1);
    }
}

/// The backward trim scanner stays within bounds and stops after a
/// non-blank.
proof fn lemma_trim_end_bounds(s: Seq<char>, j: int)
    requires
        0 <= j <= s.len(),
    ensures
        0 <= trim_end_idx(s, j) <= j,
        trim_end_idx(s, j) > 0 ==> !is_blank_char(s[trim_end_idx(s, j) - 1]),
    decreases j,
{
    if j > 0 && is_blank_char(s[j - 1]) {
        lemma_trim_end_bounds(s, j - 1);
    }
}

/// The backward scanner never crosses a non-blank character below it.
proof fn lemma_trim_end_above(s: Seq<char>, a: int, j: int)
    requires
        0 <= a < s.len(),
        !is_blank_char(s[a]),
        a < j <= s.len(),
    ensures
        trim_end_idx(s, j) > a,
    decreases j,
{
    if j > 0 && is_blank_char(s[j - 1]) {
        lemma_trim_end_above(s, a, j - 1);
    }
}

/// Removes every double quote from the text.
fn strip_quotes_str(t: &str) -> (r: String)
    ensures
        r@ == strip_quotes(t@),
{
    let n = t.unicode_len();
    let mut r = String::new();
    let mut i: usize = 0;
    while i < n
        invariant
            i <= n,
            n == t@.len(),
            r@ == strip_quotes(t@.subrange(0, i as int)),
        decreases n - i,
    {
        let c = t.get_char(i);
        proof {
            assert(t@.subrange(0, i + 1) =~= t@.subrange(0, i as int).push(t@[i as int]));
            lemma_strip_quotes_push(t@.subrange(0, i as int), t@[i as int]);
        }
        if c != '"' {
            crate::text::push_char(&mut r, c);
        }
        i += 1;
    }
    proof {
        assert(t@.subrange(0, n as int) =~= t@);
    }
    r
}

/// Finds the first comma of the text, if any.
fn find_first_comma(t: &str) -> (r: Option<usize>)
    ensures
        match first_comma(t@, 0) {
            Some(p) => r matches Some(x) && x == p,
            None => r is None,
        },
{
    let n = t.unicode_len();
    let mut i: usize = 0;
    while i < n
        invariant
            i <= n,
            n == t@.len(),
            first_comma(t@, 0) == first_comma(t@, i as int),
        decreases n - i,
    {
        if t.get_char(i) == ',' {
            return Some(i);
        }
        i += 1;
    }
    None
}

/// Scans backwards over trailing blanks, returning the trimmed end.
fn scan_trim_end(t: &str, n: usize) -> (b: usize)
    requires
        n == t@.len(),
    ensures
        b == trim_end_idx(t@, n as int),
        b <= n,
{
    let mut b = n;
    loop
        invariant
            b <= n,
            n == t@.len(),
            trim_end_idx(t@, n as int) == trim_end_idx(t@, b as int),
        decreases b,
    {
        if b == 0 {
            return b;
        }
        let c = t.get_char(b - 1);
        let blank = c == ' ' || c == '\t' || c == '\n' || c == '\r' || c == '\u{b}' || c
            == '\u{c}';
        if !blank {
            return b;
        }
        b -= 1;
    }
}

/// Removes leading and trailing blanks from the text.
fn trim_str(t: &str) -> (r: String)
    ensures
        r@ == trim_text(t@),
{
    let n = t.unicode_len();
    let a = scan_blank_end(t, n, 0);
    if a == n {
        return String::new();
    }
    let b = scan_trim_end(t, n);
    proof {
        lemma_blank_end_stop(t@, 0);
        lemma_trim_end_above(t@, a as int, n as int);
    }
    t.substring_char(a, b).to_owned()
}

/// What chrono's fixed-offset datetime parser yields, as a UTC instant,
/// on a given text under the store's detail format; nothing besides the
/// text determines it.
pub uninterp spec fn pg_datetime_of(s: Seq<char>) -> Option<UtcDateTime>;

/// Relies on chrono's `DateTime::parse_from_str` under the format
/// `"%Y-%m-%d %H:%M:%S%#z"` (the store's detail dialect, e.g.
/// `2025-06-02 19:00:00+00`), followed by `to_utc`, `timestamp` and
/// `timestamp_subsec_nanos`: the outcome depends on the input text alone.
#[verifier::external_body]
pub fn parse_pg_datetime(s: &str) -> (r: Option<UtcDateTime>)
    ensures
        r == pg_datetime_of(s@),
{
    match chrono::DateTime::parse_from_str(s, "%Y-%m-%d %H:%M:%S%#z") {
        Ok(dt) => {
            let utc = dt.to_utc();
            Some(UtcDateTime { seconds: utc.timestamp(), nanos: utc.timestamp_subsec_nanos() })
        },
        Err(_) => None,
    }
}

/// The window a captured key group names: its `resource_id` value, and
/// its dequoted `timespan` value split at the first comma into two
/// trimmed datetime texts, both of which must parse.
pub open spec fn window_of_pairs(m: KeyValuesView) -> Option<WindowView> {
    match get_key(m, "timespan"@) {
        None => None,
        Some(tsp) => match get_key(m, "resource_id"@) {
            None => None,
            Some(rid) => {
                let cleaned = strip_quotes(tsp);
                match first_comma(cleaned, 0) {
                    None => None,
                    Some(ci) => {
                        let p1 = trim_text(cleaned.subrange(0, ci));
                        let p2 = trim_text(cleaned.subrange(ci + 1, cleaned.len() as int));
                        match pg_datetime_of(p1) {
                            None => None,
                            Some(st) => match pg_datetime_of(p2) {
                                None => None,
                                Some(en) => Some(WindowView { rid: rid, start: st, end: en }),
                            },
                        }
                    },
                }
            },
        },
    }
}

impl ReservationWindow {
    /// Builds the window one captured key group names, if its timespan
    /// value has the expected shape and both bounds parse.
    pub fn from_pairs(kv: &KeyValues) -> (r: Option<ReservationWindow>)
        ensures
            match window_of_pairs(kv@) {
                Some(w) => r matches Some(x) && x@ == w,
                None => r is None,
            },
    {
        let tsp = match kv.get("timespan") {
            Some(v) => v,
            None => {
                return None;
            },
        };
        let rid = match kv.get("resource_id") {
            Some(v) => v,
            None => {
                return None;
            },
        };
        let cleaned = strip_quotes_str(tsp.as_str());
        let ci = match find_first_comma(cleaned.as_str()) {
            Some(p) => p,
            None => {
                return None;
            },
        };
        let cn = cleaned.as_str().unicode_len();
        proof {
            lemma_first_comma_in_range(cleaned@, 0);
        }
        let p1 = trim_str(cleaned.as_str().substring_char(0, ci));
        let p2 = trim_str(cleaned.as_str().substring_char(ci + 1, cn));
        let start = match parse_pg_datetime(p1.as_str()) {
            Some(d) => d,
            None => {
                return None;
            },
        };
        let end = match parse_pg_datetime(p2.as_str()) {
            Some(d) => d,
            None => {
                return None;
            },
        };
        Some(ReservationWindow { rid: rid.clone(), start, end })
    }
}

/// A found comma lies within the text.
proof fn lemma_first_comma_in_range(s: Seq<char>, i: int)
    requires
        0 <= i <= s.len(),
        first_comma(s, i) matches Some(p),
    ensures
        first_comma(s, i) matches Some(p) ==> i <= p < s.len() && s[p] == ',',
    decreases s.len() - i,
{
    if i < s.len() && s[i] != ',' {
        lemma_first_comma_in_range(s, i + 1);
    }
}

/// The structured conflict a detail describes, when it is well shaped:
/// exactly two grammar matches, each naming a resource and a parseable
/// timespan.
pub open spec fn conflict_of_detail(s: Seq<char>) -> Option<ConflictView> {
    match parsed_info_of(s) {
        None => None,
        Some((c0, c1)) => match window_of_pairs(cap_pairs(c0)) {
            None => None,
            Some(w0) => match window_of_pairs(cap_pairs(c1)) {
                None => None,
                Some(w1) => Some(ConflictView { new: w0, old: w1 }),
            },
        },
    }
}

/// What parsing a detail yields: the structured conflict where the
/// detail is well shaped, the raw text verbatim everywhere else.
pub open spec fn info_of_detail(s: Seq<char>) -> ConflictInfoView {
    match conflict_of_detail(s) {
        Some(c) => ConflictInfoView::Parsed(c),
        None => ConflictInfoView::Unparsed(s),
    }
}

impl ReservationConflictInfo {
    /// Parses a backend conflict detail. The parse is infallible at the
    /// top level: every input yields either the structured conflict or
    /// the raw detail retained verbatim.
    pub fn parse(s: &str) -> (r: Self)
        ensures
            r@ == info_of_detail(s@),
    {
        let pi = match ParsedInfo::parse(s) {
            Some(pi) => pi,
            None => {
                return ReservationConflictInfo::Unparsed(s.to_owned());
            },
        };
        let new_window = match ReservationWindow::from_pairs(&pi.new) {
            Some(w) => w,
            None => {
                return ReservationConflictInfo::Unparsed(s.to_owned());
            },
        };
        let old_window = match ReservationWindow::from_pairs(&pi.old) {
            Some(w) => w,
            None => {
                return ReservationConflictInfo::Unparsed(s.to_owned());
            },
        };
        ReservationConflictInfo::Parsed(
            ReservationConflict { new: new_window, old: old_window },
        )
    }
}

/// Scans the maximal run of word characters starting at `i`.
fn scan_word_end(s: &str, n: usize, i: usize) -> (j: usize)
    requires
        n == s@.len(),
        i <= n,
    ensures
        j == word_end(s@, i as int),
        i <= j <= n,
{
    let mut j = i;
    loop
        invariant
            i <= j <= n,
            n == s@.len(),
            word_end(s@, i as int) == word_end(s@, j as int),
        decreases n - j,
    {
        if j == n {
            return j;
        }
        let c = s.get_char(j);
        let u = c as u32;
        let word = (('a' as u32) <= u && u <= ('z' as u32)) || (('A' as u32) <= u && u <= (
        'Z' as u32)) || (('0' as u32) <= u && u <= ('9' as u32)) || c == '_' || c == '-';
        if !word {
            return j;
        }
        j += 1;
    }
}

/// Scans the maximal run of blanks starting at `i`.
fn scan_blank_end(s: &str, n: usize, i: usize) -> (j: usize)
    requires
        n == s@.len(),
        i <= n,
    ensures
        j == blank_end(s@, i as int),
        i <= j <= n,
{
    let mut j = i;
    loop
        invariant
            i <= j <= n,
            n == s@.len(),
            blank_end(s@, i as int) == blank_end(s@, j as int),
        decreases n - j,
    {
        if j == n {
            return j;
        }
        let c = s.get_char(j);
        let blank = c == ' ' || c == '\t' || c == '\n' || c == '\r' || c == '\u{b}' || c
            == '\u{c}';
        if !blank {
            return j;
        }
        j += 1;
    }
}

/// The four fragments one match of the detail grammar captures, and the
/// position just past the match.
pub struct CapView {
    pub k1: Seq<char>,
    pub k2: Seq<char>,
    pub v1: Seq<char>,
    pub v2: Seq<char>,
    pub end: int,
}

/// Attempts the detail grammar at position `i`. Each run is maximal; the
/// match fails exactly where the grammar finds an empty run or a missing
/// punctuation character.
pub open spec fn match_at(s: Seq<char>, i: int) -> Option<CapView> {
    if !(0 <= i && i < s.len() && s[i] == '(') {
        None
    } else {
        let k1s = i + 1;
        let k1e = word_end(s, k1s);
        let p1 = blank_end(s, k1e);
        if k1e == k1s || !(p1 < s.len() && s[p1] == ',') {
            None
        } else {
            let k2s = blank_end(s, p1 + 1);
            let k2e = word_end(s, k2s);
            if k2e == k2s || !(k2e + 2 < s.len() && s[k2e] == ')' && s[k2e + 1] == '=' && s[k2e
                + 2] == '(') {
                None
            } else {
                let v1s = k2e + 3;
                let v1e = word_end(s, v1s);
                let p2 = blank_end(s, v1e);
                if v1e == v1s || !(p2 < s.len() && s[p2] == ',') {
                    None
                } else {
                    let p3 = blank_end(s, p2 + 1);
                    if !(p3 < s.len() && s[p3] == '[') {
                        None
                    } else {
                        let v2s = p3 + 1;
                        let v2e = value_end(s, v2s);
                        if v2e == v2s {
                            None
                        } else {
                            Some(
                                CapView {
                                    k1: s.subrange(k1s, k1e),
                                    k2: s.subrange(k2s, k2e),
                                    v1: s.subrange(v1s, v1e),
                                    v2: s.subrange(v2s, v2e),
                                    end: v2e,
                                },
                            )
                        }
                    }
                }
            }
        }
    }
}

/// A successful match ends past its start and within the text.
pub proof fn lemma_match_at_bounds(s: Seq<char>, i: int)
    requires
        match_at(s, i) matches Some(m),
    ensures
        match_at(s, i) matches Some(m) ==> i < m.end <= s.len(),
{
    let k1s = i + 1;
    lemma_scan_bounds(s, k1s);
    let k1e = word_end(s, k1s);
    lemma_scan_bounds(s, k1e);
    let p1 = blank_end(s, k1e);
    lemma_scan_bounds(s, p1 + 1);
    let k2s = blank_end(s, p1 + 1);
    lemma_scan_bounds(s, k2s);
    let k2e = word_end(s, k2s);
    let v1s = k2e + 3;
    lemma_scan_bounds(s, v1s);
    let v1e = word_end(s, v1s);
    lemma_scan_bounds(s, v1e);
    let p2 = blank_end(s, v1e);
    lemma_scan_bounds(s, p2 + 1);
    let p3 = blank_end(s, p2 + 1);
    lemma_scan_bounds(s, p3 + 1);
}

/// The two key/value pairs captured by one match of the detail grammar,
/// in the order they were captured.
#[derive(Debug, Clone)]
pub struct KeyValues {
    pub k1: String,
    pub v1: String,
    pub k2: String,
    pub v2: String,
}

/// Mathematical image of a `KeyValues`.
pub struct KeyValuesView {
    pub k1: Seq<char>,
    pub v1: Seq<char>,
    pub k2: Seq<char>,
    pub v2: Seq<char>,
}

impl View for KeyValues {
    type V = KeyValuesView;

    open spec fn view(&self) -> KeyValuesView {
        KeyValuesView { k1: self.k1@, v1: self.v1@, k2: self.k2@, v2: self.v2@ }
    }
}

/// The pairs a match captures, with its end position forgotten.
pub open spec fn cap_pairs(m: CapView) -> KeyValuesView {
    KeyValuesView { k1: m.k1, v1: m.v1, k2: m.k2, v2: m.v2 }
}

/// All non-overlapping matches of the detail grammar at or after `i`,
/// left to right, each search resuming where the previous match ended.
pub open spec fn captures_from(s: Seq<char>, i: int) -> Seq<CapView>
    decreases s.len() - i,
        when 0 <= i <= s.len()
{
    if i >= s.len() {
        Seq::empty()
    } else {
        match match_at(s, i) {
            Some(m) => if i < m.end <= s.len() {
                seq![m] + captures_from(s, m.end)
            } else {
                Seq::empty()
            },
            None => captures_from(s, i + 1),
        }
    }
}

/// All non-overlapping matches of the detail grammar, left to right.
pub open spec fn captures(s: Seq<char>) -> Seq<CapView> {
    captures_from(s, 0)
}

/// The two captured key groups of a well-shaped detail, in match order,
/// or nothing when the detail does not hold exactly two matches.
pub open spec fn parsed_info_of(s: Seq<char>) -> Option<(CapView, CapView)> {
    if captures(s).len() == 2 {
        Some((captures(s)[0], captures(s)[1]))
    } else {
        None
    }
}

/// Collects every match of the detail grammar, left to right.
fn find_captures(s: &str) -> (r: Vec<KeyValues>)
    ensures
        r@.len() == captures(s@).len(),
        forall|k: int| 0 <= k < r@.len() ==> #[trigger] r@[k]@ == cap_pairs(captures(s@)[k]),
{
    let n = s.unicode_len();
    let mut out: Vec<KeyValues> = Vec::new();
    let ghost mut done: Seq<CapView> = Seq::empty();
    let mut i: usize = 0;
    while i < n
        invariant
            i <= n,
            n == s@.len(),
            captures(s@) == done + captures_from(s@, i as int),
            out@.len() == done.len(),
            forall|k: int| 0 <= k < out@.len() ==> #[trigger] out@[k]@ == cap_pairs(done[k]),
        decreases n - i,
    {
        match try_match(s, n, i) {
            Some((kv, e)) => {
                proof {
                    lemma_match_at_bounds(s@, i as int);
                    let m = match_at(s@, i as int).unwrap();
                    assert(captures_from(s@, i as int) =~= seq![m] + captures_from(s@, m.end));
                    done = done.push(m);
                }
                out.push(kv);
                i = e;
                proof {
                    assert(captures(s@) =~= done + captures_from(s@, i as int));
                }
            },
            None => {
                proof {
                    assert(captures_from(s@, i as int) == captures_from(s@, i + 1));
                }
                i += 1;
            },
        }
    }
    out
}

/// The two captured key groups of a conflict detail: the group of the
/// attempted key first, the group of the existing key second.
#[derive(Debug, Clone)]
pub struct ParsedInfo {
    pub new: KeyValues,
    pub old: KeyValues,
}

impl ParsedInfo {
    /// Extracts the two key groups of a well-shaped detail, in match
    /// order, or nothing when the detail does not hold exactly two
    /// matches.
    pub fn parse(s: &str) -> (r: Option<ParsedInfo>)
        ensures
            match parsed_info_of(s@) {
                Some((c0, c1)) => r matches Some(pi) && pi.new@ == cap_pairs(c0) && pi.old@
                    == cap_pairs(c1),
                None => r is None,
            },
    {
        let mut caps = find_captures(s);
        if caps.len() != 2 {
            return None;
        }
        let second = caps.pop().unwrap();
        let first = caps.pop().unwrap();
        Some(ParsedInfo { new: first, old: second })
    }
}

/// The value a captured group associates with a key: the later pair
/// shadows the earlier, as in a map filled by successive insertion.
pub open spec fn get_key(m: KeyValuesView, k: Seq<char>) -> Option<Seq<char>> {
    if m.k2 == k {
        Some(m.v2)
    } else if m.k1 == k {
        Some(m.v1)
    } else {
        None
    }
}

impl KeyValues {
    /// Looks a key up among the two captured pairs.
    pub fn get(&self, key: &str) -> (r: Option<&String>)
        ensures
            match get_key(self@, key@) {
                Some(v) => r matches Some(x) && x@ == v,
                None => r is None,
            },
    {
        if crate::text::str_eq(self.k2.as_str(), key) {
            Some(&self.v2)
        } else if crate::text::str_eq(self.k1.as_str(), key) {
            Some(&self.v1)
        } else {
            None
        }
    }
}

/// Attempts the detail grammar at position `i`, returning the captured
/// pairs and the end of the match.
fn try_match(s: &str, n: usize, i: usize) -> (r: Option<(KeyValues, usize)>)
    requires
        n == s@.len(),
        i < n,
    ensures
        match match_at(s@, i as int) {
            Some(m) => r matches Some((kv, e)) && kv@ == cap_pairs(m) && e == m.end,
            None => r is None,
        },
{
    if s.get_char(i) != '(' {
        return None;
    }
    let k1s = i + 1;
    let k1e = scan_word_end(s, n, k1s);
    let p1 = scan_blank_end(s, n, k1e);
    if k1e == k1s || p1 == n || s.get_char(p1) != ',' {
        return None;
    }
    let k2s = scan_blank_end(s, n, p1 + 1);
    let k2e = scan_word_end(s, n, k2s);
    if k2e == k2s || n - k2e <= 2 || s.get_char(k2e) != ')' || s.get_char(k2e + 1) != '='
        || s.get_char(k2e + 2) != '(' {
        return None;
    }
    let v1s = k2e + 3;
    let v1e = scan_word_end(s, n, v1s);
    let p2 = scan_blank_end(s, n, v1e);
    if v1e == v1s || p2 == n || s.get_char(p2) != ',' {
        return None;
    }
    let p3 = scan_blank_end(s, n, p2 + 1);
    if p3 == n || s.get_char(p3) != '[' {
        return None;
    }
    let v2s = p3 + 1;
    let v2e = scan_value_end(s, n, v2s);
    if v2e == v2s {
        return None;
    }
    let kv = KeyValues {
        k1: s.substring_char(k1s, k1e).to_owned(),
        v1: s.substring_char(v1s, v1e).to_owned(),
        k2: s.substring_char(k2s, k2e).to_owned(),
        v2: s.substring_char(v2s, v2e).to_owned(),
    };
    Some((kv, v2e))
}

/// Scans the maximal run of bracketed-value characters starting at `i`.
fn scan_value_end(s: &str, n: usize, i: usize) -> (j: usize)
    requires
        n == s@.len(),
        i <= n,
    ensures
        j == value_end(s@, i as int),
        i <= j <= n,
{
    let mut j = i;
    loop
        invariant
            i <= j <= n,
            n == s@.len(),
            value_end(s@, i as int) == value_end(s@, j as int),
        decreases n - j,
    {
        if j == n {
            return j;
        }
        let c = s.get_char(j);
        if c == ')' || c == ']' {
            return j;
        }
        j += 1;
    }
}

} // verus!
