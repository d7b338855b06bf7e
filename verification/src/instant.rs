//! Points in time, as whole seconds since 1970-01-01 00:00:00 UTC and the
//! nanoseconds into that second, and the ways to obtain one.

use vstd::prelude::*;

verus! {

/// The first second the calendar can name: midnight of 1 January -262143.
pub const MIN_SECS: i64 = -8_334_601_228_800;

/// The last second the calendar can name: 23:59:59 of 31 December 262142.
pub const MAX_SECS: i64 = 8_210_266_876_799;

/// Seconds in a day.
pub const DAY_SECS: i64 = 86_400;

/// A point in time. A leap second is the 59th second of its minute with
/// `nanos` of 1,000,000,000 and more.
#[derive(Clone, Copy, Debug, PartialEq, Eq, Structural)]
pub struct Instant {
    pub secs: i64,
    pub nanos: u32,
}

impl Instant {
    /// `self` is not later than `other`: seconds decide, then nanoseconds.
    pub open spec fn at_or_before(self, other: Instant) -> bool {
        self.secs < other.secs || (self.secs == other.secs && self.nanos <= other.nanos)
    }

    /// `self` is strictly later than `other`.
    pub open spec fn after(self, other: Instant) -> bool {
        !self.at_or_before(other)
    }

    /// The instant 24 hours earlier. Stepping back out of a leap second lands
    /// on the ordinary second that follows it.
    pub open spec fn day_earlier(self) -> Instant {
        if self.nanos >= 1_000_000_000 {
            Instant {
                secs: (self.secs + 1 - 86_400) as i64,
                nanos: (self.nanos - 1_000_000_000) as u32,
            }
        } else {
            Instant { secs: (self.secs - 86_400) as i64, nanos: self.nanos }
        }
    }

    /// Whether the instant 24 hours earlier can still be named.
    pub open spec fn can_step_back(self) -> bool {
        if self.nanos >= 1_000_000_000 {
            self.secs + 1 - 86_400 >= MIN_SECS
        } else {
            self.secs - 86_400 >= MIN_SECS
        }
    }

    /// Whether `self` is not later than `other`.
    pub fn le(&self, other: &Instant) -> (b: bool)
        ensures
            b == self.at_or_before(*other),
    {
        self.secs < other.secs || (self.secs == other.secs && self.nanos <= other.nanos)
    }

    /// Whether the instant 24 hours earlier can still be named.
    pub fn steps_back(&self) -> (b: bool)
        ensures
            b == self.can_step_back(),
    {
        if self.nanos >= 1_000_000_000 {
            self.secs >= MIN_SECS + (DAY_SECS - 1)
        } else {
            self.secs >= MIN_SECS + DAY_SECS
        }
    }

    /// The instant 24 hours earlier.
    pub fn minus_day(&self) -> (r: Instant)
        requires
            self.can_step_back(),
        ensures
            r == self.day_earlier(),
    {
        if self.nanos >= 1_000_000_000 {
            Instant { secs: self.secs - (DAY_SECS - 1), nanos: self.nanos - 1_000_000_000 }
        } else {
            Instant { secs: self.secs - DAY_SECS, nanos: self.nanos }
        }
    }
}

/// The order of instants is total: of two, one is not later than the other,
/// and two that are each not later than the other are the same.
pub proof fn lemma_instant_order(a: Instant, b: Instant, c: Instant)
    ensures
        a.at_or_before(b) || b.at_or_before(a),
        a.at_or_before(b) && b.at_or_before(a) ==> a == b,
        a.at_or_before(b) && b.at_or_before(c) ==> a.at_or_before(c),
{
}

/// The instant `nanos` nanoseconds into second `secs` of the epoch, where the
/// calendar can name that second and `nanos` is less than a second.
pub open spec fn epoch_instant(secs: int, nanos: int) -> Option<Instant> {
    if MIN_SECS <= secs <= MAX_SECS && 0 <= nanos < 1_000_000_000 {
        Some(Instant { secs: secs as i64, nanos: nanos as u32 })
    } else {
        None
    }
}

/// Calls `chrono::DateTime::from_timestamp` with no nanoseconds. Claimed: the
/// result is `Some` exactly for the seconds between the calendar's first and
/// last, and then reads back as those seconds.
#[verifier::external_body]
pub(crate) fn from_epoch_seconds(secs: i64) -> (r: Option<Instant>)
    ensures
        r == epoch_instant(secs as int, 0),
{
    match chrono::DateTime::from_timestamp(secs, 0) {
        Some(dt) => Some(Instant { secs: dt.timestamp(), nanos: dt.timestamp_subsec_nanos() }),
        None => None,
    }
}

/// Calls `chrono::DateTime::from_timestamp_millis`. Claimed: the count is
/// split into whole seconds, rounding down, and the rest as nanoseconds, and
/// the result is `Some` exactly where the calendar can name the second.
#[verifier::external_body]
pub(crate) fn from_epoch_millis(millis: i64) -> (r: Option<Instant>)
    ensures
        r == epoch_instant(millis as int / 1000, (millis as int % 1000) * 1_000_000),
{
    match chrono::DateTime::from_timestamp_millis(millis) {
        Some(dt) => Some(Instant { secs: dt.timestamp(), nanos: dt.timestamp_subsec_nanos() }),
        None => None,
    }
}

/// Calls `chrono::DateTime::from_timestamp_micros`. Claimed: the count is
/// split into whole seconds, rounding down, and the rest as nanoseconds, and
/// the result is `Some` exactly where the calendar can name the second.
#[verifier::external_body]
pub(crate) fn from_epoch_micros(micros: i64) -> (r: Option<Instant>)
    ensures
        r == epoch_instant(micros as int / 1_000_000, (micros as int % 1_000_000) * 1000),
{
    match chrono::DateTime::from_timestamp_micros(micros) {
        Some(dt) => Some(Instant { secs: dt.timestamp(), nanos: dt.timestamp_subsec_nanos() }),
        None => None,
    }
}

/// The instant that an RFC 3339 text names, or `None` where it is not one.
pub uninterp spec fn rfc3339_instant(text: Seq<char>) -> Option<Instant>;

/// The instant that a text of the form `2023-05-01 10:00:00` names, read as
/// UTC, or `None` where it has not that form.
pub uninterp spec fn naive_datetime_instant(text: Seq<char>) -> Option<Instant>;

/// The second of the epoch at which the UTC day of a text of the form
/// `2023-05-01` begins, or `None` where it has not that form.
pub uninterp spec fn date_midnight(text: Seq<char>) -> Option<i64>;

/// Calls `chrono::DateTime::parse_from_rfc3339`. Claimed: whether the text
/// parses, and the instant it then names, depend on the text alone.
#[verifier::external_body]
fn parse_rfc3339(text: &str) -> (r: Option<Instant>)
    ensures
        r == rfc3339_instant(text@),
{
    match chrono::DateTime::parse_from_rfc3339(text) {
        Ok(dt) => Some(Instant { secs: dt.timestamp(), nanos: dt.timestamp_subsec_nanos() }),
        Err(_) => None,
    }
}

/// Calls `chrono::NaiveDateTime::parse_from_str` with the pattern
/// `%Y-%m-%d %H:%M:%S`. Claimed: whether the text parses, and the instant it
/// then names as UTC, depend on the text alone.
#[verifier::external_body]
fn parse_naive_datetime(text: &str) -> (r: Option<Instant>)
    ensures
        r == naive_datetime_instant(text@),
{
    match chrono::NaiveDateTime::parse_from_str(text, "%Y-%m-%d %H:%M:%S") {
        Ok(nd) => Some(
            Instant { secs: nd.and_utc().timestamp(), nanos: nd.and_utc().timestamp_subsec_nanos() },
        ),
        Err(_) => None,
    }
}

/// Calls `chrono::NaiveDate::parse_from_str` with the pattern `%Y-%m-%d`.
/// Claimed: whether the text parses, and the day it then names, depend on the
/// text alone; the day's first second is a whole number of days from the
/// epoch, and the whole day lies within the calendar.
#[verifier::external_body]
fn parse_date(text: &str) -> (r: Option<i64>)
    ensures
        r == date_midnight(text@),
        r matches Some(m) ==> MIN_SECS <= m <= MAX_SECS - 86_399 && m % 86_400 == 0,
{
    match chrono::NaiveDate::parse_from_str(text, "%Y-%m-%d") {
        Ok(d) => Some(d.and_time(chrono::NaiveTime::MIN).and_utc().timestamp()),
        Err(_) => None,
    }
}

/// The instant at which day `days` after 1970-01-01 begins.
pub fn instant_from_days(days: i32) -> (r: Option<Instant>)
    ensures
        r == epoch_instant(days as int * 86_400, 0),
{
    let secs: i64 = (days as i64) * DAY_SECS;
    from_epoch_seconds(secs)
}

/// The first of two readings of a text that succeeded.
pub open spec fn first_reading(first: Option<Instant>, second: Option<Instant>) -> Option<Instant> {
    match first {
        Some(t) => Some(t),
        None => second,
    }
}

/// The instant of a timestamp text: read as RFC 3339 and, where that fails,
/// as a date and a time of day in UTC.
pub open spec fn text_instant(text: Seq<char>) -> Option<Instant> {
    first_reading(rfc3339_instant(text), naive_datetime_instant(text))
}

/// Reads a timestamp text, as RFC 3339 first and then as date and time.
pub fn instant_from_text(text: &str) -> (r: Option<Instant>)
    ensures
        r == text_instant(text@),
{
    match parse_rfc3339(text) {
        Some(t) => Some(t),
        None => parse_naive_datetime(text),
    }
}

/// The bound that a day given without a time stands for: its first second,
/// or its last where it closes a range.
pub open spec fn day_bound(midnight: Option<i64>, end_of_day: bool) -> Option<Instant> {
    match midnight {
        Some(m) => Some(
            Instant { secs: (if end_of_day { m + 86_399 } else { m as int }) as i64, nanos: 0 },
        ),
        None => None,
    }
}

/// Turns the first second of a day into the bound it stands for.
pub fn bound_of_day(midnight: Option<i64>, end_of_day: bool) -> (r: Option<Instant>)
    requires
        midnight matches Some(m) ==> m <= i64::MAX - 86_399,
    ensures
        r == day_bound(midnight, end_of_day),
{
    match midnight {
        Some(m) => {
            let secs: i64 = if end_of_day { m + 86_399 } else { m };
            Some(Instant { secs: secs, nanos: 0 })
        },
        None => None,
    }
}

/// The instant that a bound of a requested range names.
pub open spec fn input_instant(text: Seq<char>, end_of_day: bool) -> Option<Instant> {
    first_reading(rfc3339_instant(text), day_bound(date_midnight(text), end_of_day))
}

/// Reads one bound of a requested range: an RFC 3339 instant, or a day, which
/// stands for its first second, or for its last where `end_of_day` is set.
/// Any other text gives `None`.
pub fn parse_input_datetime(text: &str, end_of_day: bool) -> (r: Option<Instant>)
    ensures
        r == input_instant(text@, end_of_day),
{
    match parse_rfc3339(text) {
        Some(t) => Some(t),
        None => bound_of_day(parse_date(text), end_of_day),
    }
}

} // verus!
