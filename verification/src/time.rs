//! Points in time, in seconds and nanoseconds since the start of 1970 in UTC.
use vstd::prelude::*;

use crate::text;

verus! {

#[derive(Clone, Copy, Debug, PartialEq, Eq, Structural)]
pub struct Timestamp {
    pub secs: i64,
    pub nanos: u32,
}

/// The seconds that chrono's calendar reaches.
pub open spec fn in_calendar(secs: int) -> bool {
    -8_334_601_228_800 <= secs <= 8_210_266_876_799
}

/// The quotient without its fraction.
pub open spec fn towards_zero(n: int, d: int) -> int {
    if n < 0 {
        -((-n) / d)
    } else {
        n / d
    }
}

/// The second of its day.
pub open spec fn second_of_day(secs: i64) -> int {
    secs as int % 86_400
}

impl Timestamp {
    /// The dates that the calendar holds: the years from 262144 BCE to 262142 CE.
    /// From the billionth nanosecond on it is a leap second, the 61st of its minute.
    pub open spec fn valid(self) -> bool {
        &&& in_calendar(self.secs as int)
        &&& self.nanos < 1_000_000_000 || self.is_leap() && self.secs as int % 60 == 59
    }

    pub open spec fn is_leap(self) -> bool {
        1_000_000_000 <= self.nanos < 2_000_000_000
    }

    /// A date that is not within a leap second.
    pub open spec fn plain(self) -> bool {
        in_calendar(self.secs as int) && self.nanos < 1_000_000_000
    }

    /// A date in a year of four digits.
    pub open spec fn of_common_era(self) -> bool {
        -62_167_219_200 <= self.secs <= 253_402_300_799 && self.valid()
    }

    /// Dates are ordered by their seconds, then by their nanoseconds.
    pub open spec fn before(self, other: Timestamp) -> bool {
        self.secs < other.secs || self.secs == other.secs && self.nanos < other.nanos
    }

    /// The leap second that lies between two dates and is in neither count of seconds:
    /// that of the earlier one, where the second of the day of the other is later.
    pub open spec fn leap_after(self, earlier: Timestamp) -> int {
        if second_of_day(self.secs) > second_of_day(earlier.secs) && earlier.nanos
            >= 1_000_000_000 {
            1
        } else if second_of_day(self.secs) < second_of_day(earlier.secs) && self.nanos
            >= 1_000_000_000 {
            -1
        } else {
            0
        }
    }

    /// Nanoseconds from `earlier` to `self`; negative when `earlier` is later. No leap
    /// second counts but those that the two are in.
    pub open spec fn nanos_after(self, earlier: Timestamp) -> int {
        (self.secs - earlier.secs + self.leap_after(earlier)) * 1_000_000_000 + (self.nanos
            - earlier.nanos)
    }

    /// Whole seconds from `earlier` to `self`; negative when `earlier` is later.
    pub open spec fn seconds_after(self, earlier: Timestamp) -> int {
        towards_zero(self.nanos_after(earlier), 1_000_000_000)
    }

    /// The date `secs` seconds earlier, at least one. A leap second is as far from it as
    /// the second after it.
    pub open spec fn earlier_by(self, secs: int) -> Timestamp {
        if self.nanos >= 1_000_000_000 {
            Timestamp {
                secs: (self.secs + 1 - secs) as i64,
                nanos: (self.nanos - 1_000_000_000) as u32,
            }
        } else {
            Timestamp { secs: (self.secs - secs) as i64, nanos: self.nanos }
        }
    }

    /// The date `secs` seconds later. A leap second is as far from it as the second that it
    /// follows.
    pub open spec fn later_by(self, secs: int) -> Timestamp {
        if secs > 0 && self.nanos >= 1_000_000_000 {
            Timestamp {
                secs: (self.secs + secs) as i64,
                nanos: (self.nanos - 1_000_000_000) as u32,
            }
        } else {
            Timestamp { secs: (self.secs + secs) as i64, nanos: self.nanos }
        }
    }

    /// Nanoseconds from `earlier` to `self`.
    pub fn nanos_since(&self, earlier: &Timestamp) -> (r: i128)
        ensures
            r == self.nanos_after(*earlier),
    {
        let a: i128 = day_second(self.secs);
        let b: i128 = day_second(earlier.secs);
        let leap: i128 = if a > b && earlier.nanos >= 1_000_000_000 {
            1
        } else if a < b && self.nanos >= 1_000_000_000 {
            -1
        } else {
            0
        };
        (self.secs as i128 - earlier.secs as i128 + leap) * 1_000_000_000 + (self.nanos as i128
            - earlier.nanos as i128)
    }

    /// Whole seconds from `earlier` to `self`.
    pub fn seconds_since(&self, earlier: &Timestamp) -> (r: i128)
        ensures
            r == self.seconds_after(*earlier),
    {
        let n: i128 = self.nanos_since(earlier);
        if n < 0 {
            -((-n) / 1_000_000_000)
        } else {
            n / 1_000_000_000
        }
    }

    pub fn is_before(&self, other: &Timestamp) -> (r: bool)
        ensures
            r == self.before(*other),
    {
        self.secs < other.secs || self.secs == other.secs && self.nanos < other.nanos
    }

    /// The date `secs` seconds earlier.
    pub fn minus_secs(&self, secs: i64) -> (r: Timestamp)
        requires
            self.valid(),
            1 <= secs <= 0x7000_0000_0000_0000,
        ensures
            r == self.earlier_by(secs as int),
    {
        if self.nanos >= 1_000_000_000 {
            Timestamp { secs: self.secs + 1 - secs, nanos: self.nanos - 1_000_000_000 }
        } else {
            Timestamp { secs: self.secs - secs, nanos: self.nanos }
        }
    }
}

/// The second of its day.
fn day_second(secs: i64) -> (r: i128)
    ensures
        r == second_of_day(secs),
{
    let s: i128 = secs as i128 + 9_223_372_036_854_806_400;
    s % 86_400
}

/// `chrono::Utc::now`: the machine's clock. Which time it shows is left open; it
/// is one that chrono can represent, and never within a leap second.
#[verifier::external_body]
pub(crate) fn utc_now() -> (r: Timestamp)
    ensures
        r.plain(),
{
    let t = chrono::Utc::now();
    Timestamp { secs: t.timestamp(), nanos: t.timestamp_subsec_nanos() }
}

/// `chrono::DateTime::from_timestamp` at whole seconds: there is such a date if
/// and only if the calendar reaches it.
#[verifier::external_body]
pub(crate) fn utc_at(secs: i64) -> (r: Option<Timestamp>)
    ensures
        r == if in_calendar(secs as int) {
            Some(Timestamp { secs, nanos: 0 })
        } else {
            None
        },
{
    chrono::DateTime::from_timestamp(secs, 0).map(
        |t| Timestamp { secs: t.timestamp(), nanos: t.timestamp_subsec_nanos() },
    )
}

/// The time that `chrono::DateTime::parse_from_rfc3339` reads from a text.
pub uninterp spec fn rfc3339_time(s: Seq<char>) -> Option<Timestamp>;

/// The text that `chrono::DateTime::to_rfc3339` writes for a UTC time.
pub uninterp spec fn rfc3339_text(t: Timestamp) -> Seq<char>;

/// The time that `chrono::DateTime::parse_from_str` reads from a text by a format.
pub uninterp spec fn time_by_format(s: Seq<char>, format: Seq<char>) -> Option<Timestamp>;

/// The text that chrono's `DateTime::format` gives a UTC time by a format.
pub uninterp spec fn time_text(t: Timestamp, format: Seq<char>) -> Seq<char>;

/// `chrono::DateTime::parse_from_rfc3339`, taken to UTC. What it reads is named;
/// a time that it reads is one of the calendar.
#[verifier::external_body]
pub(crate) fn parse_rfc3339(s: &str) -> (r: Option<Timestamp>)
    ensures
        r == rfc3339_time(s@),
        r matches Some(t) ==> t.valid(),
{
    chrono::DateTime::parse_from_rfc3339(s).ok().map(
        |t| Timestamp { secs: t.timestamp(), nanos: t.timestamp_subsec_nanos() },
    )
}

/// `chrono::DateTime::to_rfc3339` of a UTC time. What it writes is named; it begins
/// with a digit or a sign and ends with the offset, so there is nothing to trim, and
/// for the years 0 to 9999, `parse_from_rfc3339` reads the same time back from it.
#[verifier::external_body]
pub(crate) fn write_rfc3339(t: Timestamp) -> (r: String)
    requires
        t.valid(),
    ensures
        r@ == rfc3339_text(t),
        text::trim(r@) == r@,
        t.of_common_era() ==> rfc3339_time(r@) == Some(t),
{
    chrono::DateTime::from_timestamp(t.secs, t.nanos).unwrap().to_rfc3339()
}

/// `chrono::DateTime::parse_from_str`, taken to UTC. What it reads is named; a
/// time that it reads by this format, whose offset is in minutes, is one of the calendar.
#[verifier::external_body]
pub(crate) fn parse_by_format(s: &str, format: &str) -> (r: Option<Timestamp>)
    requires
        format@ == "%Y-%m-%d %H:%M:%S %z"@,
    ensures
        r == time_by_format(s@, format@),
        r matches Some(t) ==> t.valid(),
{
    chrono::DateTime::parse_from_str(s, format).ok().map(
        |t| Timestamp { secs: t.timestamp(), nanos: t.timestamp_subsec_nanos() },
    )
}

/// chrono's `DateTime::format` of a UTC time, as text. What it writes is named.
/// It panics on a format that chrono does not know, so the formats are listed.
#[verifier::external_body]
pub(crate) fn format_time(t: Timestamp, format: &str) -> (r: String)
    requires
        t.valid(),
        format@ == "%H:%M:%S"@ || format@ == "%Y-%m-%d %H:%M UTC"@ || format@
            == "%Y-%m-%d %H:%M:%S"@,
    ensures
        r@ == time_text(t, format@),
{
    chrono::DateTime::from_timestamp(t.secs, t.nanos).unwrap().format(format).to_string()
}

// ---------------------------------------------------------------------------- laws

/// Outside of leap seconds, the earlier of two dates is the one from which time has passed to
/// the other, and as much as passes one way is taken back the other way.
pub proof fn the_earlier_comes_first(a: Timestamp, b: Timestamp)
    requires
        a.plain(),
        b.plain(),
    ensures
        a.before(b) <==> b.nanos_after(a) > 0,
        a == b <==> b.nanos_after(a) == 0,
        a.nanos_after(b) == -b.nanos_after(a),
        a.seconds_after(b) == -b.seconds_after(a),
{
    let n = b.nanos_after(a);
    if n == 0 {
        assert(a.secs == b.secs && a.nanos == b.nanos);
    }
}

/// Outside of leap seconds, time adds up: what passes from one date to a second and from
/// there to a third is what passes from the first to the third.
pub proof fn time_adds_up(a: Timestamp, b: Timestamp, c: Timestamp)
    requires
        a.plain(),
        b.plain(),
        c.plain(),
    ensures
        c.nanos_after(a) == c.nanos_after(b) + b.nanos_after(a),
{
}

/// From the date so many seconds earlier, exactly that many seconds pass, and going as far
/// ahead leads back.
pub proof fn going_back_is_undone(t: Timestamp, secs: int)
    requires
        t.plain(),
        1 <= secs <= 0x7000_0000_0000_0000,
    ensures
        t.seconds_after(t.earlier_by(secs)) == secs,
        t.nanos_after(t.earlier_by(secs)) == secs * 1_000_000_000,
        t.earlier_by(secs).before(t),
        t.earlier_by(secs).later_by(secs) == t,
{
}

} // verus!
