//! Day counting in the Gregorian calendar, from 1970 onwards.
//!
//! The spec functions here say how many days a year or a month has and how
//! many days lie between 1970-01-01 and a given date. The lemmas show that
//! this count is the usual closed formula, and that no two dates share a
//! count.

use vstd::prelude::*;

verus! {

/// A year is a leap year if it is divisible by 4 and not by 100, or if it is
/// divisible by 400.
pub open spec fn is_leap(year: int) -> bool {
    (year % 4 == 0 && year % 100 != 0) || year % 400 == 0
}

/// Number of days in `year`.
pub open spec fn year_days(year: int) -> int {
    if is_leap(year) {
        366
    } else {
        365
    }
}

/// Number of days in month `month` (1 = January) of `year`.
pub open spec fn month_days(year: int, month: int) -> int
    recommends
        1 <= month <= 12,
{
    if month == 2 {
        if is_leap(year) {
            29
        } else {
            28
        }
    } else if month == 4 || month == 6 || month == 9 || month == 11 {
        30
    } else {
        31
    }
}

/// Number of days from 1970-01-01 to January 1st of `year`: the lengths of
/// the years 1970, ..., `year - 1` added up.
pub open spec fn days_before_year(year: int) -> int
    decreases year,
{
    if year <= 1970 {
        0
    } else {
        days_before_year(year - 1) + year_days(year - 1)
    }
}

/// Number of days from January 1st of `year` to the first day of `month`: the
/// lengths of the months 1, ..., `month - 1` added up.
pub open spec fn days_before_month(year: int, month: int) -> int
    decreases month,
{
    if month <= 1 {
        0
    } else {
        days_before_month(year, month - 1) + month_days(year, month - 1)
    }
}

/// Whether `year`-`month`-`day` is a date of the calendar, on or after
/// 1970-01-01.
pub open spec fn is_date(year: int, month: int, day: int) -> bool {
    &&& 1970 <= year
    &&& 1 <= month <= 12
    &&& 1 <= day <= month_days(year, month)
}

/// Number of days from 1970-01-01 to `year`-`month`-`day`.
pub open spec fn days_from_epoch(year: int, month: int, day: int) -> int {
    days_before_year(year) + days_before_month(year, month) + (day - 1)
}

/// Number of leap years among the years 1, ..., `year`.
pub open spec fn leap_years_through(year: int) -> int {
    year / 4 - year / 100 + year / 400
}

/// Check if a year is a leap year.
pub fn is_leap_year(year: u32) -> (leap: bool)
    ensures
        leap == is_leap(year as int),
{
    (year % 4 == 0 && year % 100 != 0) || year % 400 == 0
}

/// Number of days in `year`.
pub fn days_in_year(year: u32) -> (days: u64)
    ensures
        days == year_days(year as int),
{
    if is_leap_year(year) {
        366
    } else {
        365
    }
}

/// Number of days in month `month` (1 = January) of `year`.
pub fn days_in_month(year: u32, month: u8) -> (days: u64)
    requires
        1 <= month <= 12,
    ensures
        days == month_days(year as int, month as int),
{
    match month {
        2 => if is_leap_year(year) {
            29
        } else {
            28
        },
        4 | 6 | 9 | 11 => 30,
        _ => 31,
    }
}

/// The twelve months of a year add up to the year.
pub proof fn lemma_months_fill_year(year: int)
    ensures
        days_before_month(year, 13) == year_days(year),
{
    reveal_with_fuel(days_before_month, 13);
}

/// Later months start later: each month in between adds at least 28 days.
pub proof fn lemma_days_before_month_increases(year: int, earlier: int, later: int)
    requires
        earlier <= later,
    ensures
        days_before_month(year, earlier) <= days_before_month(year, later),
        1 <= earlier ==> days_before_month(year, earlier) + 28 * (later - earlier)
            <= days_before_month(year, later),
    decreases later - earlier,
{
    if earlier < later {
        lemma_days_before_month_increases(year, earlier, later - 1);
    }
}

/// Later years start later: each year in between adds at least 365 days.
pub proof fn lemma_days_before_year_increases(earlier: int, later: int)
    requires
        earlier <= later,
    ensures
        days_before_year(earlier) <= days_before_year(later),
        1970 <= earlier ==> days_before_year(earlier) + 365 * (later - earlier)
            <= days_before_year(later),
    decreases later - earlier,
{
    if earlier < later {
        lemma_days_before_year_increases(earlier, later - 1);
    }
}

/// The day count of January 1st by the closed formula: 365 days for each year
/// since 1970, and one more for each leap year among them. There are 477 leap
/// years up to 1969.
pub proof fn lemma_days_before_year_closed_form(year: int)
    requires
        1970 <= year,
    ensures
        days_before_year(year) == 365 * (year - 1970) + leap_years_through(year - 1) - 477,
    decreases year,
{
    if year > 1970 {
        lemma_days_before_year_closed_form(year - 1);
    }
}

/// The calendar repeats every 400 years, which hold 146097 days: 400 times
/// 365, and 97 leap days.
pub proof fn lemma_days_before_year_cycles(cycles: int)
    requires
        0 <= cycles,
    ensures
        days_before_year(1970 + 400 * cycles) == 146_097 * cycles,
{
    lemma_days_before_year_closed_form(1970 + 400 * cycles);
}

/// A date falls within its month and its year.
pub proof fn lemma_date_within_year(year: int, month: int, day: int)
    requires
        is_date(year, month, day),
    ensures
        days_before_month(year, month) + day <= days_before_month(year, month + 1),
        days_before_month(year, month + 1) <= year_days(year),
        days_before_year(year) <= days_from_epoch(year, month, day) < days_before_year(year + 1),
{
    lemma_days_before_month_increases(year, 1, month);
    lemma_days_before_month_increases(year, month + 1, 13);
    lemma_months_fill_year(year);
}

/// No two dates are the same number of days away from 1970-01-01.
pub proof fn lemma_days_from_epoch_injective(
    year1: int,
    month1: int,
    day1: int,
    year2: int,
    month2: int,
    day2: int,
)
    requires
        is_date(year1, month1, day1),
        is_date(year2, month2, day2),
        days_from_epoch(year1, month1, day1) == days_from_epoch(year2, month2, day2),
    ensures
        year1 == year2,
        month1 == month2,
        day1 == day2,
{
    lemma_date_within_year(year1, month1, day1);
    lemma_date_within_year(year2, month2, day2);
    if year1 < year2 {
        lemma_days_before_year_increases(year1 + 1, year2);
    } else if year2 < year1 {
        lemma_days_before_year_increases(year2 + 1, year1);
    } else if month1 < month2 {
        lemma_days_before_month_increases(year1, month1 + 1, month2);
    } else if month2 < month1 {
        lemma_days_before_month_increases(year1, month2 + 1, month1);
    }
}

} // verus!
