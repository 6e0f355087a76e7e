//! The calls into chrono: weekday, ISO week number and the month and date
//! labels of a `CalendarDate`.
use crate::gregorian::CalendarDate;
use crate::text::{decimal, four_digits};
use chrono::Datelike;
use vstd::prelude::*;

verus! {

/// Offset of each month in the weekday formula (Sakamoto's table).
pub open spec fn month_offset(month: int) -> int {
    if month == 1 { 0 }
    else if month == 2 { 3 }
    else if month == 3 { 2 }
    else if month == 4 { 5 }
    else if month == 5 { 0 }
    else if month == 6 { 3 }
    else if month == 7 { 5 }
    else if month == 8 { 1 }
    else if month == 9 { 4 }
    else if month == 10 { 6 }
    else if month == 11 { 2 }
    else { 4 }
}

/// A count of days whose remainder by 7 gives the weekday of a proleptic
/// Gregorian date, Sunday = 0 (Sakamoto's method).
pub open spec fn weekday_count(year: int, month: int, day: int) -> int {
    let y = if month < 3 { year - 1 } else { year };
    y + y / 4 - y / 100 + y / 400 + month_offset(month) + day
}

/// Weekday of a proleptic Gregorian date, Monday = 1 through Sunday = 7.
pub open spec fn iso_weekday(year: int, month: int, day: int) -> int {
    let s = weekday_count(year, month, day) % 7;
    if s == 0 { 7 } else { s }
}

/// ISO 8601 week number of a date.
pub uninterp spec fn iso_week_of(year: int, month: int, day: int) -> int;

/// The label "<month name> <year>" of a date, as chrono writes it.
pub uninterp spec fn month_year_text(year: int, month: int) -> Seq<char>;

/// The label "<weekday name>, <month name> <day>, <year>" of a date, as
/// chrono writes it.
pub uninterp spec fn long_date_text(year: int, month: int, day: int) -> Seq<char>;

/// English name of a month.
pub open spec fn month_name(month: int) -> Seq<char> {
    if month == 1 { "January"@ }
    else if month == 2 { "February"@ }
    else if month == 3 { "March"@ }
    else if month == 4 { "April"@ }
    else if month == 5 { "May"@ }
    else if month == 6 { "June"@ }
    else if month == 7 { "July"@ }
    else if month == 8 { "August"@ }
    else if month == 9 { "September"@ }
    else if month == 10 { "October"@ }
    else if month == 11 { "November"@ }
    else { "December"@ }
}

/// English name of a weekday numbered from Monday = 1.
pub open spec fn weekday_name(weekday: int) -> Seq<char> {
    if weekday == 1 { "Monday"@ }
    else if weekday == 2 { "Tuesday"@ }
    else if weekday == 3 { "Wednesday"@ }
    else if weekday == 4 { "Thursday"@ }
    else if weekday == 5 { "Friday"@ }
    else if weekday == 6 { "Saturday"@ }
    else { "Sunday"@ }
}

/// Relies on chrono's `NaiveDate::from_ymd_opt`, which accepts every
/// well-formed date, and `Weekday::number_from_monday`: the weekday of the
/// date, Monday = 1 through Sunday = 7.
#[verifier::external_body]
pub(crate) fn weekday_number(d: &CalendarDate) -> (r: u32)
    requires
        d.wf(),
    ensures
        r as int == iso_weekday(d.year as int, d.month as int, d.day as int),
        1 <= r <= 7,
{
    chrono::NaiveDate::from_ymd_opt(d.year, d.month, d.day).unwrap().weekday().number_from_monday()
}

/// Relies on chrono's `NaiveDate::iso_week` and `IsoWeek::week`: the ISO week
/// number of the date, from 1 to 53.
#[verifier::external_body]
pub(crate) fn iso_week(d: &CalendarDate) -> (r: u32)
    requires
        d.wf(),
    ensures
        r as int == iso_week_of(d.year as int, d.month as int, d.day as int),
        1 <= r <= 53,
{
    chrono::NaiveDate::from_ymd_opt(d.year, d.month, d.day).unwrap().iso_week().week()
}

/// Relies on chrono's `NaiveDate::format` with `%B %Y`: the full month name,
/// a space and the year, which has exactly four digits from 1000 to 9999.
#[verifier::external_body]
pub(crate) fn month_year_label(d: &CalendarDate) -> (r: String)
    requires
        d.wf(),
    ensures
        r@ == month_year_text(d.year as int, d.month as int),
        1000 <= d.year <= 9999 ==> r@ == month_name(d.month as int) + seq![' '] + four_digits(
            d.year as int,
        ),
{
    chrono::NaiveDate::from_ymd_opt(d.year, d.month, d.day).unwrap().format("%B %Y").to_string()
}

/// Relies on chrono's `NaiveDate::format` with `%A, %B %-d, %Y`: the full
/// weekday name, the full month name, the day without padding and the year,
/// which has exactly four digits from 1000 to 9999.
#[verifier::external_body]
pub(crate) fn long_date_label(d: &CalendarDate) -> (r: String)
    requires
        d.wf(),
    ensures
        r@ == long_date_text(d.year as int, d.month as int, d.day as int),
        1000 <= d.year <= 9999 ==> r@ == weekday_name(iso_weekday(d.year as int, d.month as int, d.day as int)) + ", "@
            + month_name(d.month as int) + seq![' '] + decimal(d.day as int) + ", "@
            + four_digits(d.year as int),
{
    chrono::NaiveDate::from_ymd_opt(d.year, d.month, d.day).unwrap().format("%A, %B %-d, %Y").to_string()
}

} // verus!
