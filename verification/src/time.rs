//! Clock readings, spans and calendar times as plain values.

use vstd::prelude::*;

verus! {

/// The longest span: `u64::MAX` seconds and 999,999,999 nanoseconds.
pub const MAX_SPAN_NANOS: u128 = 18_446_744_073_709_551_615_999_999_999;

/// The first second that a calendar time can hold: the start of the year
/// -262143.
pub const MIN_CALENDAR_SECS: i64 = -8_334_601_228_800;

/// The last second that a calendar time can hold: the end of the year 262142.
pub const MAX_CALENDAR_SECS: i64 = 8_210_266_876_799;

/// A length of time. Its view is the number of nanoseconds.
#[derive(Debug, Clone, Copy, PartialEq, Eq, PartialOrd, Ord, Structural)]
pub struct Span {
    nanos: u128,
}

impl View for Span {
    type V = nat;

    closed spec fn view(&self) -> nat {
        self.nanos as nat
    }
}

impl Span {
    #[verifier::type_invariant]
    spec fn in_range(self) -> bool {
        self.nanos <= MAX_SPAN_NANOS
    }

    /// A span of whole seconds.
    pub fn from_secs(secs: u64) -> (span: Span)
        ensures
            span@ == secs * 1_000_000_000,
    {
        Span { nanos: secs as u128 * 1_000_000_000 }
    }

    /// A span of nanoseconds.
    pub fn from_nanos(nanos: u64) -> (span: Span)
        ensures
            span@ == nanos,
    {
        Span { nanos: nanos as u128 }
    }

    /// The length in nanoseconds.
    pub fn as_nanos(self) -> (nanos: u128)
        ensures
            nanos == self@,
            nanos <= MAX_SPAN_NANOS,
    {
        proof {
            use_type_invariant(&self);
        }
        self.nanos
    }

    /// The sum of two spans, or the longest span where the sum exceeds it.
    pub fn saturating_add(self, other: Span) -> (sum: Span)
        ensures
            sum@ == if self@ + other@ <= MAX_SPAN_NANOS {
                self@ + other@
            } else {
                MAX_SPAN_NANOS as nat
            },
    {
        proof {
            use_type_invariant(&self);
            use_type_invariant(&other);
        }
        let sum: u128 = self.nanos + other.nanos;
        if sum <= MAX_SPAN_NANOS {
            Span { nanos: sum }
        } else {
            Span { nanos: MAX_SPAN_NANOS }
        }
    }
}

/// A reading of the process's monotonic clock, in nanoseconds from the clock's
/// origin.
#[derive(Debug, Clone, Copy, PartialEq, Eq, PartialOrd, Ord, Structural)]
pub struct Tick {
    pub nanos: u64,
}

/// A point on the monotonic clock at which something falls due.
#[derive(Debug, Clone, Copy, PartialEq, Eq, PartialOrd, Ord, Structural)]
pub struct Deadline {
    pub nanos: u128,
}

impl Tick {
    /// The point that lies `span` after this reading.
    pub fn plus(self, span: Span) -> (deadline: Deadline)
        ensures
            deadline.nanos == self.nanos + span@,
    {
        let length: u128 = span.as_nanos();
        Deadline { nanos: self.nanos as u128 + length }
    }

    /// Time since an earlier reading, zero where `earlier` is not earlier.
    pub fn since(self, earlier: Tick) -> (span: Span)
        ensures
            span@ == if self.nanos >= earlier.nanos {
                (self.nanos - earlier.nanos) as nat
            } else {
                0
            },
    {
        if self.nanos >= earlier.nanos {
            Span::from_nanos(self.nanos - earlier.nanos)
        } else {
            Span::from_nanos(0)
        }
    }
}

impl Deadline {
    /// Whether the clock has reached this point.
    pub fn reached(self, now: Tick) -> (due: bool)
        ensures
            due == (now.nanos >= self.nanos),
    {
        now.nanos as u128 >= self.nanos
    }
}

/// A UTC calendar time: whole seconds since 1970 and nanoseconds. A leap second
/// is the last second of a minute with a nanosecond part of a second or more.
#[derive(Debug, Clone, Copy, PartialEq, Eq, PartialOrd, Ord, Structural)]
pub struct Timestamp {
    secs: i64,
    nanos: u32,
}

/// Whether seconds and nanoseconds name a calendar time.
pub open spec fn is_calendar_time(secs: int, nanos: int) -> bool {
    &&& MIN_CALENDAR_SECS <= secs <= MAX_CALENDAR_SECS
    &&& 0 <= nanos < 2_000_000_000
    &&& nanos >= 1_000_000_000 ==> secs % 60 == 59
}

/// Seconds and nanoseconds of a count of nanoseconds since 1970.
pub open spec fn split_nanos(total: int) -> (int, int) {
    (total / 1_000_000_000, total % 1_000_000_000)
}

/// A calendar time moved by `delta` nanoseconds. A leap second is kept while
/// the move stays inside it or goes back by less than a second; a move past its
/// end does not count it.
pub open spec fn shifted(secs: int, nanos: int, delta: int) -> (int, int) {
    let total = secs * 1_000_000_000 + nanos + delta;
    if nanos < 1_000_000_000 || delta <= -1_000_000_000 {
        split_nanos(total)
    } else if delta < 1_000_000_000 && nanos + delta < 2_000_000_000 {
        (secs, nanos + delta)
    } else {
        split_nanos(total - 1_000_000_000)
    }
}

/// The text that `to_rfc3339` gives a calendar time.
pub uninterp spec fn rfc3339(secs: int, nanos: int) -> Seq<char>;

/// The text that `to_rfc3339_opts` gives a calendar time with the suffix `Z`,
/// with nine fractional digits where `full`, else with three.
pub uninterp spec fn rfc3339_zulu(secs: int, nanos: int, full: bool) -> Seq<char>;

/// The text of a calendar time in the form `%Y-%m-%dT%H:%M:%S%.3fZ`.
pub uninterp spec fn query_stamp(secs: int, nanos: int) -> Seq<char>;

/// Seconds and nanoseconds of the UTC time that an RFC 3339 text names, if it
/// names one.
pub uninterp spec fn parsed_rfc3339(text: Seq<char>) -> Option<(int, int)>;

/// Whether the time lies in the years 0 to 9999, which RFC 3339 can express.
pub open spec fn in_rfc3339_years(secs: int) -> bool {
    -62_167_219_200 <= secs <= 253_402_300_799
}

impl Timestamp {
    #[verifier::type_invariant]
    spec fn in_range(self) -> bool {
        is_calendar_time(self.secs as int, self.nanos as int)
    }

    /// Whole seconds since 1970.
    pub closed spec fn secs(self) -> int {
        self.secs as int
    }

    /// Nanoseconds within the second.
    pub closed spec fn nanos(self) -> int {
        self.nanos as int
    }

    /// The calendar time with these parts, if there is one.
    pub fn new(secs: i64, nanos: u32) -> (time: Option<Timestamp>)
        ensures
            time is Some <==> is_calendar_time(secs as int, nanos as int),
            time matches Some(t) ==> t.secs() == secs && t.nanos() == nanos,
    {
        if secs < MIN_CALENDAR_SECS || secs > MAX_CALENDAR_SECS || nanos >= 2_000_000_000 {
            return None;
        }
        if nanos >= 1_000_000_000 {
            // Counted from a whole minute before the calendar's first second.
            let from_start: i64 = secs - (MIN_CALENDAR_SECS - 60);
            if from_start % 60 != 59 {
                return None;
            }
        }
        Some(Timestamp { secs, nanos })
    }

    /// The parts of a time lie in the calendar's range.
    pub fn parts(self) -> (parts: (i64, u32))
        ensures
            parts.0 == self.secs(),
            parts.1 == self.nanos(),
            is_calendar_time(self.secs(), self.nanos()),
    {
        proof {
            use_type_invariant(&self);
        }
        (self.secs, self.nanos)
    }

    /// Calls `chrono::DateTime::<Utc>::checked_add_signed` with a delta of whole
    /// nanoseconds. Claims that the result is the time moved by the delta, and
    /// that there is none exactly where the moved time leaves the calendar.
    #[verifier::external_body]
    pub(crate) fn checked_add_nanos(self, delta: i64) -> (moved: Option<Timestamp>)
        ensures
            moved is Some <==> MIN_CALENDAR_SECS <= shifted(
                self.secs(),
                self.nanos(),
                delta as int,
            ).0 <= MAX_CALENDAR_SECS,
            moved matches Some(t) ==> (t.secs(), t.nanos()) == shifted(
                self.secs(),
                self.nanos(),
                delta as int,
            ),
    {
        let time = chrono::DateTime::from_timestamp(self.secs, self.nanos)?;
        let moved = time.checked_add_signed(chrono::TimeDelta::nanoseconds(delta))?;
        Some(Timestamp { secs: moved.timestamp(), nanos: moved.timestamp_subsec_nanos() })
    }

    /// Calls `chrono::DateTime::<Utc>::to_rfc3339`. Claims that the text depends
    /// on the time alone.
    #[verifier::external_body]
    pub(crate) fn to_rfc3339(self) -> (text: String)
        ensures
            text@ == rfc3339(self.secs(), self.nanos()),
    {
        chrono::DateTime::from_timestamp(self.secs, self.nanos).unwrap_or_default().to_rfc3339()
    }

    /// Calls `chrono::DateTime::<Utc>::to_rfc3339_opts` with the suffix `Z` and
    /// nine fractional digits where `full`, else three. Claims that the text
    /// depends on the time and the number of digits alone, and that the
    /// nine-digit text of a time in the years 0 to 9999 is parsed back to that
    /// time.
    #[verifier::external_body]
    pub(crate) fn to_rfc3339_zulu(self, full: bool) -> (text: String)
        ensures
            text@ == rfc3339_zulu(self.secs(), self.nanos(), full),
            full && in_rfc3339_years(self.secs()) ==> parsed_rfc3339(text@) == Some(
                (self.secs(), self.nanos()),
            ),
    {
        let time = chrono::DateTime::from_timestamp(self.secs, self.nanos).unwrap_or_default();
        match full {
            true => time.to_rfc3339_opts(chrono::SecondsFormat::Nanos, true),
            false => time.to_rfc3339_opts(chrono::SecondsFormat::Millis, true),
        }
    }

    /// Calls `chrono::DateTime::<Utc>::format` with `%Y-%m-%dT%H:%M:%S%.3fZ`.
    /// Claims that the text depends on the time alone.
    #[verifier::external_body]
    pub(crate) fn to_query_stamp(self) -> (text: String)
        ensures
            text@ == query_stamp(self.secs(), self.nanos()),
    {
        let time = chrono::DateTime::from_timestamp(self.secs, self.nanos).unwrap_or_default();
        time.format("%Y-%m-%dT%H:%M:%S%.3fZ").to_string()
    }

    /// Calls `chrono::DateTime::parse_from_rfc3339` and takes the result in UTC.
    /// Claims that the outcome depends on the text alone.
    #[verifier::external_body]
    pub(crate) fn parse_rfc3339(text: &str) -> (time: Option<Timestamp>)
        ensures
            time is Some <==> parsed_rfc3339(text@) is Some,
            time matches Some(t) ==> parsed_rfc3339(text@) == Some((t.secs(), t.nanos())),
    {
        let parsed = chrono::DateTime::parse_from_rfc3339(text).ok()?;
        let utc = parsed.with_timezone(&chrono::Utc);
        Some(Timestamp { secs: utc.timestamp(), nanos: utc.timestamp_subsec_nanos() })
    }
}

} // verus!
