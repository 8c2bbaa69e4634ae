//! Points of civil time, and how they are written.

use vstd::prelude::*;

use crate::number;
use crate::number::{Span, MAX_SPAN_NANOS};

verus! {

/// A point of civil time: seconds from the Unix epoch, and nanoseconds within the
/// second. The nanoseconds reach into a second second only within a leap second.
#[derive(Clone, Copy, Debug, PartialEq, Eq, Structural)]
pub struct CivilTime {
    /// Seconds from the epoch.
    pub secs: i64,
    /// Nanoseconds within the second.
    pub nanos: u32,
}

/// The first second of the year 0.
pub const FIRST_WRITTEN_SECS: i64 = -62_167_219_200;

/// The last second of the year 9999.
pub const LAST_WRITTEN_SECS: i64 = 253_402_300_799;

impl CivilTime {
    /// Nanoseconds from the epoch.
    pub open spec fn since_epoch(self) -> int {
        self.secs * 1_000_000_000 + self.nanos
    }

    /// A year of four digits, and no leap second.
    pub open spec fn is_ordinary(self) -> bool {
        FIRST_WRITTEN_SECS <= self.secs <= LAST_WRITTEN_SECS && self.nanos < 1_000_000_000
    }

    /// The second of the day in which this point lies.
    pub open spec fn second_of_day(self) -> int {
        self.secs as int % 86_400
    }

    /// This point lies within a leap second.
    pub open spec fn in_leap(self) -> bool {
        self.nanos >= 1_000_000_000
    }

    /// Nanoseconds from `earlier` to this point, below zero where it lies before. Days are
    /// all of one length; a leap second counts only where it lies between the two times of
    /// day.
    pub open spec fn since(self, earlier: CivilTime) -> int {
        self.since_epoch() - earlier.since_epoch() + if self.second_of_day()
            > earlier.second_of_day() && earlier.in_leap() {
            1_000_000_000int
        } else if self.second_of_day() < earlier.second_of_day() && self.in_leap() {
            -1_000_000_000int
        } else {
            0
        }
    }

    fn day_second(self) -> (r: i64)
        ensures
            r == self.second_of_day(),
    {
        // Shifted by whole days, every second counts from zero up.
        let shifted: i128 = (self.secs as i128) + 86_400 * 106751991167301;
        (shifted % 86_400) as i64
    }

    /// How long after `earlier` this point lies, up to the longest span, or `None` where
    /// it lies before.
    pub fn after(self, earlier: CivilTime) -> (r: Option<Span>)
        ensures
            r is None <==> self.since(earlier) < 0,
            r matches Some(s) ==> s.wf() && s.nanos == number::smaller(
                self.since(earlier),
                MAX_SPAN_NANOS as int,
            ),
    {
        let a: i128 = (self.secs as i128) * 1_000_000_000 + (self.nanos as i128);
        let b: i128 = (earlier.secs as i128) * 1_000_000_000 + (earlier.nanos as i128);
        let mine: i64 = self.day_second();
        let theirs: i64 = earlier.day_second();
        let leap: i128 = if mine > theirs && earlier.nanos >= 1_000_000_000 {
            1_000_000_000
        } else if mine < theirs && self.nanos >= 1_000_000_000 {
            -1_000_000_000
        } else {
            0
        };
        let d: i128 = a - b + leap;
        if d < 0 {
            None
        } else {
            let d: u128 = d as u128;
            Some(
                Span {
                    nanos: if d < MAX_SPAN_NANOS {
                        d
                    } else {
                        MAX_SPAN_NANOS
                    },
                },
            )
        }
    }
}

/// The point of time that a text in RFC 3339 names: what
/// `chrono::DateTime::parse_from_rfc3339` reads, as seconds and nanoseconds.
pub uninterp spec fn rfc3339_time(s: Seq<char>) -> Option<(i64, u32)>;

/// `chrono::DateTime::parse_from_rfc3339`: the point of time that the text names,
/// whatever its offset.
#[verifier::external_body]
pub(crate) fn parse_rfc3339(s: &str) -> (r: Option<CivilTime>)
    ensures
        (match r {
            Some(t) => Some((t.secs, t.nanos)),
            None => None::<(i64, u32)>,
        }) == rfc3339_time(s@),
{
    match chrono::DateTime::parse_from_rfc3339(s) {
        Ok(t) => Some(CivilTime { secs: t.timestamp(), nanos: t.timestamp_subsec_nanos() }),
        Err(_) => None,
    }
}

/// What `chrono::DateTime::to_rfc3339` writes for a point of time, if it is one that
/// a `DateTime<Utc>` can hold.
pub uninterp spec fn rfc3339_text(secs: i64, nanos: u32) -> Option<Seq<char>>;

/// `chrono::DateTime::<Utc>::to_rfc3339`: in the years of four digits there is such a
/// text, it begins with a digit, holds no white space, quotes or backslashes, and reads
/// back as the same point of time.
#[verifier::external_body]
pub(crate) fn to_rfc3339(t: CivilTime) -> (r: Option<String>)
    ensures
        crate::text::opt(r) == rfc3339_text(t.secs, t.nanos),
        t.is_ordinary() ==> r is Some,
        r matches Some(s) ==> t.is_ordinary() ==> rfc3339_time(s@) == Some((t.secs, t.nanos)),
        r matches Some(s) ==> t.is_ordinary() ==> s@.len() > 0 && '0' <= s@[0] <= '9' && forall|
            i: int,
        |
            0 <= i < s@.len() ==> '+' <= #[trigger] s@[i] <= 'T',
{
    chrono::DateTime::from_timestamp(t.secs, t.nanos).map(|d| d.to_rfc3339())
}

/// What `chrono::DateTime::format` writes for a point of time under
/// `%Y-%m-%d %H:%M`, if it is one that a `DateTime<Utc>` can hold.
pub uninterp spec fn minute_text(secs: i64, nanos: u32) -> Option<Seq<char>>;

/// `chrono::DateTime::<Utc>::format` with `%Y-%m-%d %H:%M`.
#[verifier::external_body]
pub(crate) fn to_minute(t: CivilTime) -> (r: Option<String>)
    ensures
        crate::text::opt(r) == minute_text(t.secs, t.nanos),
{
    chrono::DateTime::from_timestamp(t.secs, t.nanos).map(
        |d| format!("{}", d.format("%Y-%m-%d %H:%M")),
    )
}

/// Away from leap seconds the time between two points is the difference of their seconds
/// and nanoseconds, so it adds up, and turns round with the points.
pub proof fn time_between_adds_up(a: CivilTime, b: CivilTime, c: CivilTime)
    requires
        a.nanos < 1_000_000_000,
        b.nanos < 1_000_000_000,
        c.nanos < 1_000_000_000,
    ensures
        a.since(b) == (a.secs - b.secs) * 1_000_000_000 + a.nanos - b.nanos,
        a.since(b) + b.since(c) == a.since(c),
        a.since(b) == -b.since(a),
{
}

/// A leap second lasts a second more: it lies between a point of time within it and one at a
/// later time of day.
pub proof fn a_leap_second_counts_once(leap: CivilTime, later: CivilTime)
    requires
        1_000_000_000 <= leap.nanos < 2_000_000_000,
        later.nanos < 1_000_000_000,
        leap.secs as int % 86_400 < later.secs as int % 86_400,
    ensures
        later.since(leap) == (later.secs - leap.secs) * 1_000_000_000 + later.nanos - (leap.nanos
            - 1_000_000_000),
        leap.since(later) == -later.since(leap),
{
}

} // verus!
