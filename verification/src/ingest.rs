//! Reading the timestamp of a row, and selecting the rows of a time window.

use vstd::prelude::*;
use crate::instant::{
    epoch_instant, from_epoch_micros, from_epoch_millis, from_epoch_seconds, input_instant,
    instant_from_days, instant_from_text, parse_input_datetime, text_instant, Instant,
};

verus! {

/// What a row may hold in the column that a timestamp is read from.
#[derive(Debug)]
pub enum TimeField {
    /// Milliseconds since the epoch.
    TimestampMillis(i64),
    /// Microseconds since the epoch.
    TimestampMicros(i64),
    /// Seconds since the epoch, 32 bits.
    Int(i32),
    /// Seconds since the epoch, 64 bits.
    Long(i64),
    /// Days since 1970-01-01.
    Date(i32),
    /// A timestamp written out.
    Str(String),
    /// Anything else.
    Other,
}

/// The instant that a field stands for, if any.
pub open spec fn field_instant(field: TimeField) -> Option<Instant> {
    match field {
        TimeField::TimestampMillis(v) => epoch_instant(v as int / 1000, (v as int % 1000) * 1_000_000),
        TimeField::TimestampMicros(v) => epoch_instant(
            v as int / 1_000_000,
            (v as int % 1_000_000) * 1000,
        ),
        TimeField::Int(v) => epoch_instant(v as int, 0),
        TimeField::Long(v) => epoch_instant(v as int, 0),
        TimeField::Date(v) => epoch_instant(v as int * 86_400, 0),
        TimeField::Str(s) => text_instant(s@),
        TimeField::Other => None,
    }
}

/// Reads a field as an instant.
pub fn timestamp_of(field: &TimeField) -> (r: Option<Instant>)
    ensures
        r == field_instant(*field),
{
    match field {
        TimeField::TimestampMillis(v) => from_epoch_millis(*v),
        TimeField::TimestampMicros(v) => from_epoch_micros(*v),
        TimeField::Int(v) => from_epoch_seconds(*v as i64),
        TimeField::Long(v) => from_epoch_seconds(*v),
        TimeField::Date(v) => instant_from_days(*v),
        TimeField::Str(s) => instant_from_text(s.as_str()),
        TimeField::Other => None,
    }
}

/// Column `i` is the first of the row that is called `name`.
pub open spec fn is_first_named(row: Seq<(String, TimeField)>, name: Seq<char>, i: int) -> bool {
    &&& 0 <= i < row.len()
    &&& row[i].0@ == name
    &&& forall|j: int| 0 <= j < i ==> row[j].0@ != name
}

/// The instant in the first column called `name`. A row without such a
/// column, or with one that holds no instant, gives `None`.
pub fn get_datetime_by_name(row: &Vec<(String, TimeField)>, name: &String) -> (r: Option<Instant>)
    ensures
        (forall|i: int| 0 <= i < row@.len() ==> row@[i].0@ != name@) ==> r is None,
        forall|i: int| is_first_named(row@, name@, i) ==> r == field_instant(row@[i].1),
{
    let mut i: usize = 0;
    while i < row.len()
        invariant
            i <= row@.len(),
            forall|j: int| 0 <= j < i ==> row@[j].0@ != name@,
        decreases row@.len() - i,
    {
        if row[i].0 == *name {
            assert(is_first_named(row@, name@, i as int));
            return timestamp_of(&row[i].1);
        }
        i += 1;
    }
    None
}

/// The bounds of a requested range, each of which may be left open.
#[derive(Clone, Copy, Debug, PartialEq, Eq, Structural)]
pub struct TimeWindow {
    pub start: Option<Instant>,
    pub end: Option<Instant>,
}

/// The bound that a request's text names, an absent text naming none.
pub open spec fn requested_bound(text: Option<&str>, end_of_day: bool) -> Option<Instant> {
    match text {
        Some(t) => input_instant(t@, end_of_day),
        None => None,
    }
}

/// The window that a request asks for. Each bound is read on its own: a day
/// given as start stands for its first second, as end for its last, and a
/// bound that is absent or cannot be read is left open.
pub fn requested_window(start: Option<&str>, end: Option<&str>) -> (window: TimeWindow)
    ensures
        window.start == requested_bound(start, false),
        window.end == requested_bound(end, true),
{
    let from = match start {
        Some(text) => parse_input_datetime(text, false),
        None => None,
    };
    let to = match end {
        Some(text) => parse_input_datetime(text, true),
        None => None,
    };
    TimeWindow { start: from, end: to }
}

/// The latest instant among the rows, `None` where there are none.
pub open spec fn newest<P>(rows: Seq<(P, Instant)>) -> Option<Instant>
    decreases rows.len(),
{
    if rows.len() == 0 {
        None
    } else {
        match newest(rows.drop_last()) {
            None => Some(rows.last().1),
            Some(m) => if rows.last().1.after(m) {
                Some(rows.last().1)
            } else {
                Some(m)
            },
        }
    }
}

/// Where the window ends: at its own end, or at the latest instant seen.
pub open spec fn window_end(window: TimeWindow, latest: Instant) -> Instant {
    match window.end {
        Some(e) => e,
        None => latest,
    }
}

/// Where the window starts: at its own start, or a day before its end.
pub open spec fn window_start(window: TimeWindow, latest: Instant) -> Instant {
    match window.start {
        Some(s) => s,
        None => window_end(window, latest).day_earlier(),
    }
}

/// `t` lies between `start` and `end`, both included.
pub open spec fn within(t: Instant, start: Instant, end: Instant) -> bool {
    start.at_or_before(t) && t.at_or_before(end)
}

/// The points of the rows whose instant lies within the bounds, in order.
pub open spec fn kept<P>(rows: Seq<(P, Instant)>, start: Instant, end: Instant) -> Seq<P>
    decreases rows.len(),
{
    if rows.len() == 0 {
        Seq::empty()
    } else if within(rows.last().1, start, end) {
        kept(rows.drop_last(), start, end).push(rows.last().0)
    } else {
        kept(rows.drop_last(), start, end)
    }
}

/// The points that a window selects from the rows.
pub open spec fn selection<P>(rows: Seq<(P, Instant)>, window: TimeWindow) -> Seq<P> {
    match newest(rows) {
        None => Seq::empty(),
        Some(m) => kept(rows, window_start(window, m), window_end(window, m)),
    }
}

/// Where the window's start is left open, the day before its end can be named.
pub open spec fn resolvable<P>(rows: Seq<(P, Instant)>, window: TimeWindow) -> bool {
    match newest(rows) {
        None => true,
        Some(m) => window.start is None ==> window_end(window, m).can_step_back(),
    }
}

/// The latest instant among the rows.
pub fn latest_timestamp<P>(rows: &Vec<(P, Instant)>) -> (r: Option<Instant>)
    ensures
        r == newest(rows@),
{
    let mut latest: Option<Instant> = None;
    let mut i: usize = 0;
    while i < rows.len()
        invariant
            i <= rows@.len(),
            latest == newest(rows@.take(i as int)),
        decreases rows@.len() - i,
    {
        proof {
            assert(rows@.take(i + 1).drop_last() =~= rows@.take(i as int));
            assert(rows@.take(i + 1).last() == rows@[i as int]);
        }
        let t: Instant = rows[i].1;
        latest = match latest {
            None => Some(t),
            Some(m) => if t.le(&m) {
                Some(m)
            } else {
                Some(t)
            },
        };
        i += 1;
    }
    assert(rows@.take(rows@.len() as int) =~= rows@);
    latest
}

/// The points whose instant lies within the bounds, in the order of the rows.
pub fn filter_points<P: Copy>(rows: &Vec<(P, Instant)>, start: Instant, end: Instant) -> (r: Vec<P>)
    ensures
        r@ == kept(rows@, start, end),
{
    let mut out: Vec<P> = Vec::new();
    let mut i: usize = 0;
    while i < rows.len()
        invariant
            i <= rows@.len(),
            out@ == kept(rows@.take(i as int), start, end),
        decreases rows@.len() - i,
    {
        proof {
            assert(rows@.take(i + 1).drop_last() =~= rows@.take(i as int));
            assert(rows@.take(i + 1).last() == rows@[i as int]);
        }
        let t: Instant = rows[i].1;
        if start.le(&t) && t.le(&end) {
            let p: P = rows[i].0;
            out.push(p);
        }
        i += 1;
    }
    assert(rows@.take(rows@.len() as int) =~= rows@);
    out
}

/// Selects the points of a window. An open end is the latest instant among
/// the rows, an open start the day before the end; both bounds are included.
/// Without rows nothing is selected.
pub fn select_points<P: Copy>(rows: &Vec<(P, Instant)>, window: &TimeWindow) -> (r: Vec<P>)
    requires
        resolvable(rows@, *window),
    ensures
        r@ == selection(rows@, *window),
{
    match latest_timestamp(rows) {
        None => Vec::new(),
        Some(m) => {
            let end: Instant = match window.end {
                Some(e) => e,
                None => m,
            };
            let start: Instant = match window.start {
                Some(s) => s,
                None => end.minus_day(),
            };
            filter_points(rows, start, end)
        },
    }
}

/// The latest instant is one of the rows' and none of them is later; there is
/// none exactly where there are no rows.
pub proof fn lemma_newest_is_latest<P>(rows: Seq<(P, Instant)>)
    ensures
        newest(rows) is None <==> rows.len() == 0,
        newest(rows) matches Some(m) ==> {
            &&& exists|i: int| 0 <= i < rows.len() && rows[i].1 == m
            &&& forall|i: int| 0 <= i < rows.len() ==> (#[trigger] rows[i]).1.at_or_before(m)
        },
    decreases rows.len(),
{
    if rows.len() > 0 {
        let shorter = rows.drop_last();
        lemma_newest_is_latest(shorter);
        let last = rows.len() - 1;
        let m = newest(rows)->Some_0;
        assert forall|i: int| 0 <= i < rows.len() implies (#[trigger] rows[i]).1.at_or_before(m) by {
            if i < last {
                assert(shorter[i] == rows[i]);
            }
        }
        if m == rows[last].1 {
            assert(rows[last].1 == m);
        } else {
            let w = choose|i: int| 0 <= i < shorter.len() && shorter[i].1 == m;
            assert(rows[w].1 == m);
        }
    }
}

/// A window whose start lies after its end selects nothing, whatever the rows.
pub proof fn lemma_inverted_window_selects_nothing<P>(rows: Seq<(P, Instant)>, window: TimeWindow)
    requires
        window.start is Some,
        window.end is Some,
        window.start->Some_0.after(window.end->Some_0),
    ensures
        selection(rows, window).len() == 0,
{
    match newest(rows) {
        None => {},
        Some(m) => {
            lemma_kept_within(rows, window_start(window, m), window_end(window, m));
        },
    }
}

/// No more points are kept than there are rows; none where the bounds are
/// the wrong way round or no row lies within them; and every row's point,
/// in order, where all rows lie within them.
pub proof fn lemma_kept_within<P>(rows: Seq<(P, Instant)>, start: Instant, end: Instant)
    ensures
        kept(rows, start, end).len() <= rows.len(),
        start.after(end) ==> kept(rows, start, end).len() == 0,
        (forall|i: int| 0 <= i < rows.len() ==> within((#[trigger] rows[i]).1, start, end)) ==> kept(
            rows,
            start,
            end,
        ) == rows.map_values(|r: (P, Instant)| r.0),
        (forall|i: int| 0 <= i < rows.len() ==> !within((#[trigger] rows[i]).1, start, end))
            ==> kept(rows, start, end).len() == 0,
    decreases rows.len(),
{
    if rows.len() > 0 {
        let shorter = rows.drop_last();
        lemma_kept_within(shorter, start, end);
        assert forall|i: int| 0 <= i < shorter.len() implies shorter[i] == rows[i] by {}
        if forall|i: int| 0 <= i < rows.len() ==> within((#[trigger] rows[i]).1, start, end) {
            assert forall|i: int| 0 <= i < shorter.len() implies within(
                (#[trigger] shorter[i]).1,
                start,
                end,
            ) by {
                assert(shorter[i] == rows[i]);
            }
            assert(within(rows[rows.len() - 1].1, start, end));
            assert(kept(rows, start, end) =~= rows.map_values(|r: (P, Instant)| r.0));
        }
        if forall|i: int| 0 <= i < rows.len() ==> !within((#[trigger] rows[i]).1, start, end) {
            assert forall|i: int| 0 <= i < shorter.len() implies !within(
                (#[trigger] shorter[i]).1,
                start,
                end,
            ) by {
                assert(shorter[i] == rows[i]);
            }
            assert(!within(rows[rows.len() - 1].1, start, end));
        }
    } else {
        assert(kept(rows, start, end) =~= rows.map_values(|r: (P, Instant)| r.0));
    }
}

} // verus!
