//! Points in time, as a log entry carries them: an instant, and the offset
//! of the local clock that recorded it.

use vstd::prelude::*;
use crate::text::{two_digits, three_digits};

verus! {

/// The first second that a [`Timestamp`] holds: the first of the year
/// -262143, counted from the epoch.
pub const MIN_SECS: i64 = -8_334_601_228_800;

/// The last second that a [`Timestamp`] holds: the last of the year 262142,
/// counted from the epoch.
pub const MAX_SECS: i64 = 8_210_266_876_799;

/// A [`Timestamp`] as mathematical integers.
pub struct TimestampView {
    /// Whole seconds since 1970-01-01 00:00:00 UTC, not counting leap seconds.
    pub secs: int,
    /// Nanoseconds into the second; from 1,000,000,000 on, a leap second.
    pub nanos: int,
    /// Seconds that the local clock is ahead of UTC.
    pub utc_offset: int,
}

/// The values that a [`Timestamp`] can hold: the second lies from
/// [`MIN_SECS`] to [`MAX_SECS`], the nanoseconds stay below two seconds, and
/// the local clock is less than a day away from UTC. These are the times
/// that chrono can hold.
pub open spec fn representable(secs: int, nanos: int, utc_offset: int) -> bool {
    &&& MIN_SECS <= secs <= MAX_SECS
    &&& 0 <= nanos < 2_000_000_000
    &&& -86_400 < utc_offset < 86_400
}

/// Whether instant `a` is no later than instant `b`. The offsets of the
/// clocks play no part.
pub open spec fn at_or_before(a: TimestampView, b: TimestampView) -> bool {
    a.secs < b.secs || (a.secs == b.secs && a.nanos <= b.nanos)
}

/// The local time of day as shown in front of a log line: hours, minutes,
/// seconds and milliseconds in fixed width, then a space. The milliseconds
/// are cut, not rounded; within a leap second the second shown is one more,
/// so that a leap second at the end of a minute shows as second 60.
pub open spec fn clock_text(secs: int, nanos: int, utc_offset: int) -> Seq<char> {
    let local = (secs + utc_offset) % 86_400;
    two_digits(local / 3600) + seq![':'] + two_digits(local / 60 % 60) + seq![':'] + two_digits(
        local % 60 + nanos / 1_000_000_000,
    ) + seq!['.'] + three_digits(nanos / 1_000_000 % 1000) + seq![' ']
}

/// An instant together with the offset of the clock that recorded it.
#[derive(Clone, Copy, Debug, PartialEq, Eq)]
pub struct Timestamp {
    secs: i64,
    nanos: u32,
    utc_offset: i32,
}

impl View for Timestamp {
    type V = TimestampView;

    closed spec fn view(&self) -> TimestampView {
        TimestampView {
            secs: self.secs as int,
            nanos: self.nanos as int,
            utc_offset: self.utc_offset as int,
        }
    }
}

impl DeepView for Timestamp {
    type V = TimestampView;

    open spec fn deep_view(&self) -> TimestampView {
        self@
    }
}

impl Timestamp {
    #[verifier::type_invariant]
    spec fn in_range(self) -> bool {
        representable(self.secs as int, self.nanos as int, self.utc_offset as int)
    }

    /// Makes a timestamp from seconds and nanoseconds since the epoch and the
    /// offset of the local clock, or nothing where the three are not
    /// [`representable`].
    pub fn new(secs: i64, nanos: u32, utc_offset: i32) -> (made: Option<Timestamp>)
        ensures
            made is Some <==> representable(secs as int, nanos as int, utc_offset as int),
            made matches Some(t) ==> t@ == (TimestampView {
                secs: secs as int,
                nanos: nanos as int,
                utc_offset: utc_offset as int,
            }),
    {
        if secs < MIN_SECS || secs > MAX_SECS {
            return None;
        }
        if nanos >= 2_000_000_000 {
            return None;
        }
        if utc_offset <= -86_400 || utc_offset >= 86_400 {
            return None;
        }
        Some(Timestamp { secs, nanos, utc_offset })
    }

    /// Whole seconds since the epoch.
    pub fn secs(&self) -> (secs: i64)
        ensures
            secs == self@.secs,
    {
        self.secs
    }

    /// Nanoseconds into the second.
    pub fn nanos(&self) -> (nanos: u32)
        ensures
            nanos == self@.nanos,
    {
        self.nanos
    }

    /// Seconds that the local clock is ahead of UTC.
    pub fn utc_offset(&self) -> (utc_offset: i32)
        ensures
            utc_offset == self@.utc_offset,
    {
        self.utc_offset
    }

    /// Whether this instant is no later than `other`.
    pub fn at_or_before(&self, other: &Timestamp) -> (earlier: bool)
        ensures
            earlier == at_or_before(self@, other@),
    {
        self.secs < other.secs || (self.secs == other.secs && self.nanos <= other.nanos)
    }

    /// The local time of day, as shown in front of a log line.
    pub fn clock(&self) -> (text: String)
        ensures
            text@ == clock_text(self@.secs, self@.nanos, self@.utc_offset),
    {
        proof {
            use_type_invariant(self);
        }
        format_clock(self.secs, self.nanos, self.utc_offset)
    }
}

/// chrono's `DateTime::format` with the pattern `%H:%M:%S%.3f `, on the
/// instant `secs`, `nanos` seen through a fixed offset of `utc_offset`
/// seconds. The text is the zero-padded hour, minute and second of the local
/// time of day, a dot, the millisecond in three digits and a space. The
/// arguments are turned into chrono's values by `DateTime::from_timestamp`
/// for the second, `Timelike::with_nanosecond` for the nanoseconds,
/// `FixedOffset::east_opt` and `DateTime::with_timezone`, which accept every
/// representable triple.
#[verifier::external_body]
fn format_clock(secs: i64, nanos: u32, utc_offset: i32) -> (text: String)
    requires
        representable(secs as int, nanos as int, utc_offset as int),
    ensures
        text@ == clock_text(secs as int, nanos as int, utc_offset as int),
{
    let zone = chrono::FixedOffset::east_opt(utc_offset).unwrap();
    let second = chrono::DateTime::from_timestamp(secs, 0).unwrap().naive_utc();
    let instant = chrono::Timelike::with_nanosecond(&second, nanos).unwrap().and_utc();
    instant.with_timezone(&zone).format("%H:%M:%S%.3f ").to_string()
}

} // verus!
