//! Plain calendar date and wall-clock time values.
//!
//! A log message carries its timestamp as year, month, day, hour, minute,
//! second and millisecond, validated against the Gregorian calendar.

use vstd::arithmetic::div_mod::{
    lemma_fundamental_div_mod, lemma_fundamental_div_mod_converse_mod, lemma_mod_mod,
};
use vstd::prelude::*;

verus! {

/// A calendar date: year, month (1-12) and day of month (1-based).
#[derive(Clone, Copy, Debug, PartialEq, Eq, Structural)]
pub struct Date {
    pub year: i32,
    pub month: u32,
    pub day: u32,
}

/// A wall-clock time of day, with millisecond precision.
#[derive(Clone, Copy, Debug, PartialEq, Eq, Structural)]
pub struct Time {
    pub hour: u32,
    pub minute: u32,
    pub second: u32,
    pub millisecond: u32,
}

/// A combined calendar date and wall-clock time.
#[derive(Clone, Copy, Debug, PartialEq, Eq, Structural)]
pub struct DateTime {
    pub date: Date,
    pub time: Time,
}

/// Whether `year` is a leap year of the proleptic Gregorian calendar.
pub open spec fn is_leap_year(year: int) -> bool {
    year % 4 == 0 && (year % 100 != 0 || year % 400 == 0)
}

/// The number of days of month `month` (1-12) in year `year`.
pub open spec fn days_in_month(year: int, month: int) -> int {
    if month == 2 {
        if is_leap_year(year) {
            29
        } else {
            28
        }
    } else if month == 4 || month == 6 || month == 9 || month == 11 {
        30
    } else {
        31
    }
}

impl Date {
    /// A date is valid when its month and day lie in calendar range.
    pub open spec fn is_valid(self) -> bool {
        &&& 1 <= self.month <= 12
        &&& 1 <= self.day <= days_in_month(self.year as int, self.month as int)
    }

    /// Returns the year of this date.
    pub fn year(&self) -> (r: i32)
        ensures
            r == self.year,
    {
        self.year
    }

    /// Returns the month of this date, from 1 to 12.
    pub fn month(&self) -> (r: u32)
        ensures
            r == self.month,
    {
        self.month
    }

    /// Returns the day of month of this date, starting from 1.
    pub fn day(&self) -> (r: u32)
        ensures
            r == self.day,
    {
        self.day
    }
}

impl Time {
    /// A time is valid when hour, minute and second lie in range. A
    /// millisecond value of 1000 or more up to 1999 stands on a leap
    /// second, following the convention of common date-time libraries.
    pub open spec fn is_valid(self) -> bool {
        &&& self.hour < 24
        &&& self.minute < 60
        &&& self.second < 60
        &&& self.millisecond < 2000
    }

    /// Returns the hour of this time, from 0 to 23.
    pub fn hour(&self) -> (r: u32)
        ensures
            r == self.hour,
    {
        self.hour
    }

    /// Returns the minute of this time, from 0 to 59.
    pub fn minute(&self) -> (r: u32)
        ensures
            r == self.minute,
    {
        self.minute
    }

    /// Returns the second of this time, from 0 to 59.
    pub fn second(&self) -> (r: u32)
        ensures
            r == self.second,
    {
        self.second
    }

    /// Returns the millisecond of this time.
    pub fn millisecond(&self) -> (r: u32)
        ensures
            r == self.millisecond,
    {
        self.millisecond
    }
}

impl DateTime {
    /// A date-time is valid when both of its halves are.
    pub open spec fn is_valid(self) -> bool {
        self.date.is_valid() && self.time.is_valid()
    }

    /// Combines calendar and clock fields into a `DateTime`, or returns
    /// `None` when the combination is out of calendar range.
    pub fn new(
        year: i32,
        month: u32,
        day: u32,
        hour: u32,
        minute: u32,
        second: u32,
        millisecond: u32,
    ) -> (r: Option<DateTime>)
        ensures
            ({
                let dt = DateTime {
                    date: Date { year, month, day },
                    time: Time { hour, minute, second, millisecond },
                };
                if dt.is_valid() {
                    r == Some(dt)
                } else {
                    r is None
                }
            }),
    {
        if month < 1 || month > 12 {
            return None;
        }
        let month_days: u32 = if month == 2 {
            if leap_year(year) {
                29
            } else {
                28
            }
        } else if month == 4 || month == 6 || month == 9 || month == 11 {
            30
        } else {
            31
        };
        if day < 1 || day > month_days {
            return None;
        }
        if hour >= 24 || minute >= 60 || second >= 60 || millisecond >= 2000 {
            return None;
        }
        Some(
            DateTime {
                date: Date { year, month, day },
                time: Time { hour, minute, second, millisecond },
            },
        )
    }

    /// Returns the calendar half of this date-time.
    pub fn date(&self) -> (r: Date)
        ensures
            r == self.date,
    {
        self.date
    }

    /// Returns the clock half of this date-time.
    pub fn time(&self) -> (r: Time)
        ensures
            r == self.time,
    {
        self.time
    }
}

/// The residue of `year` modulo 400, computed on machine integers.
fn year_mod_400(year: i32) -> (r: u32)
    ensures
        r as int == (year as int) % 400,
{
    if year >= 0 {
        (year as u32) % 400
    } else {
        let n: u64 = (-(year as i64)) as u64;
        let m: u64 = n % 400;
        if m == 0 {
            proof {
                lemma_fundamental_div_mod(n as int, 400);
                lemma_fundamental_div_mod_converse_mod(
                    year as int,
                    400,
                    -((n as int) / 400),
                    0,
                );
            }
            0
        } else {
            proof {
                lemma_fundamental_div_mod(n as int, 400);
                lemma_fundamental_div_mod_converse_mod(
                    year as int,
                    400,
                    -((n as int) / 400) - 1,
                    400 - (m as int),
                );
            }
            (400 - m) as u32
        }
    }
}

/// Whether `year` is a leap year, decided on machine integers.
fn leap_year(year: i32) -> (r: bool)
    ensures
        r == is_leap_year(year as int),
{
    let m = year_mod_400(year);
    proof {
        lemma_mod_mod(year as int, 4, 100);
        lemma_mod_mod(year as int, 100, 4);
        assert(4 * 100 == 400);
        assert(100 * 4 == 400);
    }
    (m % 4 == 0 && m % 100 != 0) || m == 0
}

} // verus!
