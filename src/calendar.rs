//! Calendar days as plain values, and the few calendar facts the library
//! takes from chrono.

use chrono::Datelike;
use vstd::prelude::*;

verus! {

/// A calendar day of the proleptic Gregorian calendar.
#[derive(Clone, Copy, Debug, PartialEq, Eq, Structural)]
pub struct Date {
    pub year: i32,
    pub month: u32,
    pub day: u32,
}

/// Earliest and latest year that chrono's `NaiveDate` represents.
pub open spec fn year_in_range(y: int) -> bool {
    -262143 <= y <= 262142
}

pub open spec fn is_leap_year(y: int) -> bool {
    y % 4 == 0 && (y % 100 != 0 || y % 400 == 0)
}

pub open spec fn year_length(y: int) -> int {
    if is_leap_year(y) { 366 } else { 365 }
}

pub open spec fn month_length(y: int, m: int) -> int {
    if m == 2 {
        if is_leap_year(y) { 29 } else { 28 }
    } else if m == 4 || m == 6 || m == 9 || m == 11 {
        30
    } else {
        31
    }
}

/// Number of days of year `y` that lie before month `m`.
pub open spec fn days_before_month(y: int, m: int) -> int
    decreases m,
{
    if m <= 1 { 0 } else { days_before_month(y, m - 1) + month_length(y, m - 1) }
}

/// English name of month `m` (1 = January).
pub open spec fn month_name_text(m: int) -> Seq<char> {
    if m == 1 { "January"@ }
    else if m == 2 { "February"@ }
    else if m == 3 { "March"@ }
    else if m == 4 { "April"@ }
    else if m == 5 { "May"@ }
    else if m == 6 { "June"@ }
    else if m == 7 { "July"@ }
    else if m == 8 { "August"@ }
    else if m == 9 { "September"@ }
    else if m == 10 { "October"@ }
    else if m == 11 { "November"@ }
    else { "December"@ }
}

impl Date {
    /// The day exists in the calendar and chrono can represent it.
    pub open spec fn is_valid(self) -> bool {
        &&& year_in_range(self.year as int)
        &&& 1 <= self.month <= 12
        &&& 1 <= self.day <= month_length(self.year as int, self.month as int)
    }

    /// Calendar order: `self` is the same day as `o` or an earlier one.
    pub open spec fn not_later_than(self, o: Date) -> bool {
        ||| self.year < o.year
        ||| (self.year == o.year && self.month < o.month)
        ||| (self.year == o.year && self.month == o.month && self.day <= o.day)
    }

    pub fn is_not_later_than(&self, o: &Date) -> (r: bool)
        ensures
            r == self.not_later_than(*o),
    {
        self.year < o.year || (self.year == o.year && self.month < o.month) || (self.year
            == o.year && self.month == o.month && self.day <= o.day)
    }

    /// Whether the day lies in the given month of the given year.
    pub open spec fn in_month(self, year: int, month: int) -> bool {
        self.year == year && self.month == month
    }
}

/// Month of year `y` that holds its day number `o`, searching from month `m`.
pub open spec fn month_of_ordinal(y: int, o: int, m: int) -> int
    decreases 12 - m,
{
    if m >= 12 || o <= days_before_month(y, m + 1) {
        m
    } else {
        month_of_ordinal(y, o, m + 1)
    }
}

/// The day of year `y` whose day number is `o`.
pub open spec fn ordinal_date(y: int, o: int) -> Date {
    let m = month_of_ordinal(y, o, 1);
    Date { year: y as i32, month: m as u32, day: (o - days_before_month(y, m)) as u32 }
}

/// Whether year `y` has a day number `o` that chrono can represent.
pub open spec fn ordinal_exists(y: int, o: int) -> bool {
    year_in_range(y) && 1 <= o <= year_length(y)
}

/// Relies on chrono::NaiveDate::from_yo_opt: the day with the given day of the
/// year, or none where the year has no such day or lies outside chrono's range.
#[verifier::external_body]
pub(crate) fn date_from_ordinal(year: i32, ordinal: u32) -> (r: Option<Date>)
    ensures
        r == (if ordinal_exists(year as int, ordinal as int) {
            Some(ordinal_date(year as int, ordinal as int))
        } else {
            None::<Date>
        }),
{
    chrono::NaiveDate::from_yo_opt(year, ordinal).map(
        |d| Date { year: d.year(), month: d.month(), day: d.day() },
    )
}

/// Relies on chrono::NaiveDate::from_ymd_opt: the day with the given year,
/// month and day, where it exists and chrono can represent it.
#[verifier::external_body]
pub(crate) fn date_from_ymd(year: i32, month: u32, day: u32) -> (r: Option<Date>)
    ensures
        r == (if (Date { year, month, day }).is_valid() {
            Some(Date { year, month, day })
        } else {
            None::<Date>
        }),
{
    chrono::NaiveDate::from_ymd_opt(year, month, day).map(
        |d| Date { year: d.year(), month: d.month(), day: d.day() },
    )
}

/// Relies on chrono::Month::name: the English name of a month.
#[verifier::external_body]
pub(crate) fn month_name(month: u32) -> (r: String)
    requires
        1 <= month <= 12,
    ensures
        r@ == month_name_text(month as int),
{
    match chrono::Month::try_from(month as u8) {
        Ok(m) => m.name().to_string(),
        Err(_) => String::new(),
    }
}

} // verus!
