//! Points in time and spans of time, with a resolution of one second.

use vstd::prelude::*;

verus! {

/// Seconds in one calendar day.
pub const SECONDS_PER_DAY: i64 = 86_400;

/// Bound on the magnitude of a timestamp in seconds. Every date-time of the
/// calendar lies inside it: a day number fits `i32`, and `2^31` days are fewer
/// seconds than this.
pub const MAX_ABS_SECONDS: i64 = 281_474_976_710_656;

/// Leap years of the proleptic Gregorian calendar.
pub open spec fn is_leap_year(year: int) -> bool {
    year % 4 == 0 && (year % 100 != 0 || year % 400 == 0)
}

/// Number of days in a month of the given year.
pub open spec fn days_in_month(year: int, month: int) -> int {
    if month == 2 {
        if is_leap_year(year) {
            29
        } else {
            28
        }
    } else if month == 4 || month == 6 || month == 9 || month == 11 {
        30
    } else {
        31
    }
}

/// The year, month and day form a date of the calendar, whose years run
/// from -9999 to 9999.
pub open spec fn is_calendar_date(year: int, month: int, day: int) -> bool {
    -9999 <= year <= 9999 && 1 <= month <= 12 && 1 <= day <= days_in_month(year, month)
}

/// The Julian day number of a date of the proleptic Gregorian calendar.
pub uninterp spec fn julian_day_of(year: int, month: int, day: int) -> int;

/// Relies on `time::Month::try_from`, which accepts the month numbers 1 to
/// 12, on `time::Date::from_calendar_date`, which accepts a year from -9999
/// to 9999 and a day of that month, and on `time::Date::to_julian_day`, which
/// numbers the date.
#[verifier::external_body]
fn julian_day(year: i32, month: u8, day: u8) -> (r: Option<i32>)
    ensures
        r is Some <==> is_calendar_date(year as int, month as int, day as int),
        r matches Some(j) ==> j as int == julian_day_of(year as int, month as int, day as int),
{
    let month = time::Month::try_from(month).ok()?;
    time::Date::from_calendar_date(year, month, day).ok().map(|d| d.to_julian_day())
}

/// The hour, minute and second form a reading of a 24-hour clock.
pub open spec fn is_clock_time(hour: int, minute: int, second: int) -> bool {
    0 <= hour < 24 && 0 <= minute < 60 && 0 <= second < 60
}

/// Position on the timeline of a day number and a clock reading.
pub open spec fn timeline_seconds(julian_day: int, hour: int, minute: int, second: int) -> int {
    julian_day * SECONDS_PER_DAY + hour * 3600 + minute * 60 + second
}

/// An absolute point in time: whole seconds on a timeline whose day numbers
/// are Julian days.
#[derive(Clone, Copy, Debug, PartialEq, Eq)]
pub struct Timestamp {
    seconds: i64,
}

impl View for Timestamp {
    type V = int;

    closed spec fn view(&self) -> int {
        self.seconds as int
    }
}

impl Timestamp {
    #[verifier::type_invariant]
    spec fn in_range(self) -> bool {
        -MAX_ABS_SECONDS <= self.seconds <= MAX_ABS_SECONDS
    }

    /// The timestamp of a Julian day and a time of day, or `None` when the
    /// time of day is not a valid clock reading.
    pub fn from_julian_day(julian_day: i32, hour: u8, minute: u8, second: u8) -> (r: Option<
        Timestamp,
    >)
        ensures
            r is Some <==> is_clock_time(hour as int, minute as int, second as int),
            r matches Some(t) ==> t@ == timeline_seconds(
                julian_day as int,
                hour as int,
                minute as int,
                second as int,
            ),
    {
        if hour >= 24 || minute >= 60 || second >= 60 {
            return None;
        }
        assert(-2147483648 * SECONDS_PER_DAY <= julian_day as int * SECONDS_PER_DAY
            <= 2147483647 * SECONDS_PER_DAY) by (nonlinear_arith)
            requires
                -2147483648 <= julian_day <= 2147483647,
        ;
        let seconds: i64 = julian_day as i64 * SECONDS_PER_DAY + hour as i64 * 3600 + minute as i64
            * 60 + second as i64;
        Some(Timestamp { seconds })
    }

    /// The timestamp of a calendar date and a time of day, or `None` when
    /// they do not name one.
    pub fn from_date_time(year: i32, month: u8, day: u8, hour: u8, minute: u8, second: u8) -> (r:
        Option<Timestamp>)
        ensures
            r is Some <==> is_calendar_date(year as int, month as int, day as int)
                && is_clock_time(hour as int, minute as int, second as int),
            r matches Some(t) ==> t@ == timeline_seconds(
                julian_day_of(year as int, month as int, day as int),
                hour as int,
                minute as int,
                second as int,
            ),
    {
        match julian_day(year, month, day) {
            Some(j) => Timestamp::from_julian_day(j, hour, minute, second),
            None => None,
        }
    }

    /// The position of this timestamp on the timeline, in seconds.
    pub fn seconds(&self) -> (r: i64)
        ensures
            r as int == self@,
            -MAX_ABS_SECONDS <= r <= MAX_ABS_SECONDS,
    {
        proof {
            use_type_invariant(self);
        }
        self.seconds
    }

}

/// A signed span of time in whole seconds.
#[derive(Clone, Copy, Debug, PartialEq, Eq, Structural)]
pub struct Duration {
    pub seconds: i128,
}

impl Duration {
    /// A span of `n` seconds.
    pub fn seconds(n: i128) -> (r: Duration)
        ensures
            r.seconds == n,
    {
        Duration { seconds: n }
    }

    /// A span of `n` minutes.
    pub fn minutes(n: i128) -> (r: Duration)
        requires
            i128::MIN <= n * 60 <= i128::MAX,
        ensures
            r.seconds == n * 60,
    {
        Duration { seconds: n * 60 }
    }
}

} // verus!
