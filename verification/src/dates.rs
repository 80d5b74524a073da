//! Calendar dates as day numbers, with the proleptic Gregorian calendar of
//! `chrono` (day 1 is Monday, 1 January of year 1).
use vstd::prelude::*;

verus! {

/// A day of the week.
#[derive(Clone, Copy, Debug, PartialEq, Eq, Structural)]
pub enum Weekday {
    /// Monday.
    Mon,
    /// Tuesday.
    Tue,
    /// Wednesday.
    Wed,
    /// Thursday.
    Thu,
    /// Friday.
    Fri,
    /// Saturday.
    Sat,
    /// Sunday.
    Sun,
}

/// A calendar date.
#[derive(Clone, Copy, Debug, PartialEq, Eq, Structural)]
pub struct Date {
    /// Days since the common era: 1 is 1 January of year 1.
    pub days_from_ce: i32,
}

/// Position of a weekday counted from Monday.
pub open spec fn weekday_index(w: Weekday) -> int {
    match w {
        Weekday::Mon => 0,
        Weekday::Tue => 1,
        Weekday::Wed => 2,
        Weekday::Thu => 3,
        Weekday::Fri => 4,
        Weekday::Sat => 5,
        Weekday::Sun => 6,
    }
}

/// The weekday of a day number.
pub open spec fn spec_weekday(days_from_ce: int) -> int {
    (days_from_ce - 1) % 7
}

/// Saturday and Sunday.
pub open spec fn is_weekend(w: Weekday) -> bool {
    w == Weekday::Sat || w == Weekday::Sun
}

/// The lower-case three letter name of a weekday.
pub open spec fn spec_day_name(w: Weekday) -> Seq<char> {
    match w {
        Weekday::Mon => seq!['m', 'o', 'n'],
        Weekday::Tue => seq!['t', 'u', 'e'],
        Weekday::Wed => seq!['w', 'e', 'd'],
        Weekday::Thu => seq!['t', 'h', 'u'],
        Weekday::Fri => seq!['f', 'r', 'i'],
        Weekday::Sat => seq!['s', 'a', 't'],
        Weekday::Sun => seq!['s', 'u', 'n'],
    }
}

/// Is the year a leap year of the proleptic Gregorian calendar?
pub open spec fn is_leap_year(year: int) -> bool {
    year % 4 == 0 && (year % 100 != 0 || year % 400 == 0)
}

/// The number of days in a month (1 to 12) of a year.
pub open spec fn days_in_month(year: int, month: int) -> int {
    if month == 2 {
        if is_leap_year(year) { 29 } else { 28 }
    } else if month == 4 || month == 6 || month == 9 || month == 11 {
        30
    } else {
        31
    }
}

/// The days of a year before the first of a month (1 to 12).
pub open spec fn days_before_month(year: int, month: int) -> int {
    let common = if month == 1 { 0int } else if month == 2 { 31 } else if month == 3 { 59 }
        else if month == 4 { 90 } else if month == 5 { 120 } else if month == 6 { 151 }
        else if month == 7 { 181 } else if month == 8 { 212 } else if month == 9 { 243 }
        else if month == 10 { 273 } else if month == 11 { 304 } else { 334 };
    if month > 2 && is_leap_year(year) { common + 1 } else { common }
}

/// The days from 1 January of year 1 to 1 January of `year`.
pub open spec fn days_before_year(year: int) -> int {
    let p = year - 1;
    365 * p + p / 4 - p / 100 + p / 400
}

/// The day number of a date in the proleptic Gregorian calendar, 1 January
/// of year 1 being day 1; `None` for a month or day that does not exist, or a
/// year outside -262143 to 262142.
pub open spec fn spec_days_from_ymd(year: i32, month: u32, day: u32) -> Option<i32> {
    if -262143 <= year <= 262142 && 1 <= month <= 12 && 1 <= day <= days_in_month(year as int, month as int) {
        Some((days_before_year(year as int) + days_before_month(year as int, month as int) + day) as i32)
    } else {
        None
    }
}

/// Calls `chrono::NaiveDate::from_ymd_opt` and then `num_days_from_ce`:
/// chrono refuses months and days that do not exist and years outside
/// -262143 to 262142, and counts days in the proleptic Gregorian calendar from
/// 1 January of year 1 as day 1.
#[verifier::external_body]
fn days_from_ymd(year: i32, month: u32, day: u32) -> (days: Option<i32>)
    ensures
        days == spec_days_from_ymd(year, month, day),
{
    match chrono::NaiveDate::from_ymd_opt(year, month, day) {
        Some(date) => Some(chrono::Datelike::num_days_from_ce(&date)),
        None => None,
    }
}

impl Weekday {
    /// The weekday at a position counted from Monday.
    pub fn from_index(i: u8) -> (w: Weekday)
        requires
            i < 7,
        ensures
            weekday_index(w) == i,
    {
        match i {
            0 => Weekday::Mon,
            1 => Weekday::Tue,
            2 => Weekday::Wed,
            3 => Weekday::Thu,
            4 => Weekday::Fri,
            5 => Weekday::Sat,
            _ => Weekday::Sun,
        }
    }

    /// Saturday and Sunday.
    pub fn is_weekend(self) -> (b: bool)
        ensures
            b == is_weekend(self),
    {
        self == Weekday::Sat || self == Weekday::Sun
    }

    /// The lower-case three letter name of the weekday, as in `mon`.
    pub fn day_name(self) -> (name: String)
        ensures
            name@ == spec_day_name(self),
    {
        let mut name = String::new();
        let (a, b, c) = match self {
            Weekday::Mon => ('m', 'o', 'n'),
            Weekday::Tue => ('t', 'u', 'e'),
            Weekday::Wed => ('w', 'e', 'd'),
            Weekday::Thu => ('t', 'h', 'u'),
            Weekday::Fri => ('f', 'r', 'i'),
            Weekday::Sat => ('s', 'a', 't'),
            Weekday::Sun => ('s', 'u', 'n'),
        };
        crate::text::push_char(&mut name, a);
        crate::text::push_char(&mut name, b);
        crate::text::push_char(&mut name, c);
        assert(name@ =~= spec_day_name(self));
        name
    }
}

impl Date {
    /// The date with the given day number.
    pub fn from_days_from_ce(days_from_ce: i32) -> (date: Date)
        ensures
            date.days_from_ce == days_from_ce,
    {
        Date { days_from_ce }
    }

    /// The date of a year, month and day, if it exists.
    pub fn from_ymd(year: i32, month: u32, day: u32) -> (date: Option<Date>)
        ensures
            match spec_days_from_ymd(year, month, day) {
                Some(d) => date == Some(Date { days_from_ce: d }),
                None => date is None,
            },
    {
        match days_from_ymd(year, month, day) {
            Some(d) => Some(Date { days_from_ce: d }),
            None => None,
        }
    }

    /// The day of the week.
    pub fn weekday(self) -> (w: Weekday)
        ensures
            weekday_index(w) == spec_weekday(self.days_from_ce as int),
    {
        let shifted: i64 = self.days_from_ce as i64 - 1 + 2_800_000_000;
        let r: u64 = (shifted as u64) % 7;
        assert(r as int == spec_weekday(self.days_from_ce as int)) by (nonlinear_arith)
            requires
                shifted == self.days_from_ce as int - 1 + 2_800_000_000,
                shifted >= 0,
                r == shifted % 7,
        {
            assert(2_800_000_000int == 7 * 400_000_000);
        }
        Weekday::from_index(r as u8)
    }

    /// The date `n` days later (earlier for negative `n`), if it is representable.
    pub fn add_days(self, n: i32) -> (date: Option<Date>)
        ensures
            match date {
                Some(d) => d.days_from_ce == self.days_from_ce + n,
                None => !(i32::MIN <= self.days_from_ce + n <= i32::MAX),
            },
    {
        match self.days_from_ce.checked_add(n) {
            Some(d) => Some(Date { days_from_ce: d }),
            None => None,
        }
    }
}

} // verus!
