//! Calendar dates and times of day, held as plain integers.

use vstd::prelude::*;
use vstd::string::*;
use crate::text::{padded, push_padded, push_str};

verus! {

/// Seconds in one day.
pub const SECS_PER_DAY: u32 = 86400;

pub open spec fn abs(y: int) -> nat {
    if y < 0 { (-y) as nat } else { y as nat }
}

/// Gregorian leap year rule (proleptic, also for years before 1).
pub open spec fn is_leap(y: int) -> bool {
    let a = abs(y);
    (a % 4 == 0 && a % 100 != 0) || a % 400 == 0
}

pub open spec fn days_in_month(y: int, m: int) -> int {
    if m == 2 {
        if is_leap(y) { 29 } else { 28 }
    } else if m == 4 || m == 6 || m == 9 || m == 11 {
        30
    } else {
        31
    }
}

pub open spec fn valid_ymd(y: int, m: int, d: int) -> bool {
    1 <= m <= 12 && 1 <= d <= days_in_month(y, m)
}

/// A calendar date. Dates order by year, then month, then day.
#[derive(Clone, Copy, Debug, PartialEq, Eq, Structural, PartialOrd, Ord, Hash)]
pub struct Date {
    pub year: i32,
    pub month: u32,
    pub day: u32,
}

/// The year as `%Y` writes it: four digits for years 0 to 9999, otherwise an
/// explicit sign followed by at least four digits.
pub open spec fn year_text(y: int) -> Seq<char> {
    if 0 <= y <= 9999 {
        padded(y as nat, 4)
    } else if y < 0 {
        seq!['-'] + padded(abs(y), 4)
    } else {
        seq!['+'] + padded(abs(y), 4)
    }
}

/// The canonical `YYYY-MM-DD` form of a date.
pub open spec fn date_text(d: Date) -> Seq<char> {
    year_text(d.year as int) + seq!['-'] + padded(d.month as nat, 2) + seq!['-'] + padded(d.day as nat, 2)
}

/// Strict chronological order of dates.
pub open spec fn date_before(a: Date, b: Date) -> bool {
    a.year < b.year || (a.year == b.year && (a.month < b.month || (a.month == b.month && a.day < b.day)))
}

impl Date {
    pub open spec fn wf(&self) -> bool {
        valid_ymd(self.year as int, self.month as int, self.day as int)
    }

    /// The date with the given year, month and day, if it exists in the calendar.
    pub fn new(year: i32, month: u32, day: u32) -> (r: Option<Date>)
        ensures
            r.is_some() <==> valid_ymd(year as int, month as int, day as int),
            r.is_some() ==> r.unwrap() == (Date { year, month, day }),
    {
        if month < 1 || month > 12 || day < 1 {
            return None;
        }
        let a: u64 = if year < 0 { (-(year as i64)) as u64 } else { year as u64 };
        let leap = (a % 4 == 0 && a % 100 != 0) || a % 400 == 0;
        let len: u32 = if month == 2 {
            if leap { 29 } else { 28 }
        } else if month == 4 || month == 6 || month == 9 || month == 11 {
            30
        } else {
            31
        };
        if day > len {
            None
        } else {
            Some(Date { year, month, day })
        }
    }

    /// Whether `self` comes strictly before `other`.
    pub fn is_before(&self, other: &Date) -> (r: bool)
        ensures
            r == date_before(*self, *other),
    {
        self.year < other.year || (self.year == other.year && (self.month < other.month || (
        self.month == other.month && self.day < other.day)))
    }

    /// Appends the year as `%Y` writes it.
    pub fn push_year(&self, out: &mut String)
        ensures
            final(out)@ == old(out)@ + year_text(self.year as int),
    {
        proof {
            reveal_strlit("-");
            reveal_strlit("+");
        }
        let ghost start = out@;
        if 0 <= self.year && self.year <= 9999 {
            push_padded(out, self.year as u128, 4);
        } else {
            let a: u64 = if self.year < 0 { (-(self.year as i64)) as u64 } else { self.year as u64 };
            if self.year < 0 {
                push_str(out, "-");
            } else {
                push_str(out, "+");
            }
            push_padded(out, a as u128, 4);
            assert(out@ =~= start + year_text(self.year as int));
        }
    }

    /// The date in the canonical `YYYY-MM-DD` form.
    pub fn to_string(&self) -> (r: String)
        ensures
            r@ == date_text(*self),
    {
        proof {
            reveal_strlit("-");
        }
        let mut out = String::new();
        self.push_year(&mut out);
        push_str(&mut out, "-");
        push_padded(&mut out, self.month as u128, 2);
        push_str(&mut out, "-");
        push_padded(&mut out, self.day as u128, 2);
        assert(out@ =~= date_text(*self));
        out
    }
}

/// A time of day, as whole seconds since midnight.
#[derive(Clone, Copy, Debug, PartialEq, Eq, Structural, PartialOrd, Ord, Hash)]
pub struct Time {
    pub secs: u32,
}

/// The `HH:MM` form of a time of day.
pub open spec fn time_text(t: Time) -> Seq<char> {
    padded((t.secs / 3600) as nat, 2) + seq![':'] + padded(((t.secs % 3600) / 60) as nat, 2)
}

impl Time {
    pub open spec fn wf(&self) -> bool {
        self.secs < SECS_PER_DAY
    }

    /// The time `hour:minute:second`, if each part is within its range.
    pub fn from_hms(hour: u32, minute: u32, second: u32) -> (r: Option<Time>)
        ensures
            r.is_some() <==> (hour < 24 && minute < 60 && second < 60),
            r.is_some() ==> r.unwrap().secs == hour * 3600 + minute * 60 + second,
    {
        if hour < 24 && minute < 60 && second < 60 {
            Some(Time { secs: hour * 3600 + minute * 60 + second })
        } else {
            None
        }
    }

    /// The time in the `HH:MM` form.
    pub fn to_string(&self) -> (r: String)
        ensures
            r@ == time_text(*self),
    {
        proof {
            reveal_strlit(":");
        }
        let mut out = String::new();
        push_padded(&mut out, (self.secs / 3600) as u128, 2);
        push_str(&mut out, ":");
        push_padded(&mut out, ((self.secs % 3600) / 60) as u128, 2);
        assert(out@ =~= time_text(*self));
        out
    }
}

/// Relies on chrono's `Local::now`, read as the local calendar date (year,
/// month, day) and the whole seconds since midnight of the local time: chrono's
/// dates are valid calendar dates and its times of day stay below one day.
#[verifier::external_body]
pub(crate) fn local_now() -> (r: (Date, Time))
    ensures
        r.0.wf(),
        r.1.wf(),
{
    let now = chrono::Local::now();
    let date = now.date_naive();
    let day = Date {
        year: chrono::Datelike::year(&date),
        month: chrono::Datelike::month(&date),
        day: chrono::Datelike::day(&date),
    };
    (day, Time { secs: chrono::Timelike::num_seconds_from_midnight(&now.time()) })
}

} // verus!
