//! Gregorian calendar arithmetic: leap years, month lengths and the
//! week-by-week walk through a month.
use vstd::prelude::*;

verus! {

/// Smallest year that the date library behind this crate can represent.
pub const MIN_YEAR: i32 = -262143;

/// Largest year that the date library behind this crate can represent.
pub const MAX_YEAR: i32 = 262142;

/// Gregorian leap-year rule.
pub open spec fn is_leap(year: int) -> bool {
    (year % 4 == 0 && year % 100 != 0) || year % 400 == 0
}

/// Number of days of `month` (1 to 12) in `year`.
pub open spec fn days_in_month(year: int, month: int) -> int {
    if month == 2 {
        if is_leap(year) { 29 } else { 28 }
    } else if month == 4 || month == 6 || month == 9 || month == 11 {
        30
    } else {
        31
    }
}

/// Every month of every year has 28, 29, 30 or 31 days: 31 in January,
/// March, May, July, August, October and December, 30 in April, June,
/// September and November, and 28 or 29 in February.
pub proof fn lemma_month_lengths(year: int, month: int)
    requires
        1 <= month <= 12,
    ensures
        28 <= days_in_month(year, month) <= 31,
        month == 1 || month == 3 || month == 5 || month == 7 || month == 8 || month == 10
            || month == 12 ==> days_in_month(year, month) == 31,
        month == 4 || month == 6 || month == 9 || month == 11 ==> days_in_month(year, month)
            == 30,
        month == 2 ==> days_in_month(year, month) == 28 || days_in_month(year, month) == 29,
{
}

/// February has 29 days in a year divisible by 400, 28 in one divisible by
/// 100 but not by 400, 29 in one divisible by 4 but not by 100, and 28 in
/// every other year.
pub proof fn lemma_february_length(year: int)
    ensures
        year % 400 == 0 ==> days_in_month(year, 2) == 29,
        year % 100 == 0 && year % 400 != 0 ==> days_in_month(year, 2) == 28,
        year % 4 == 0 && year % 100 != 0 ==> days_in_month(year, 2) == 29,
        year % 4 != 0 ==> days_in_month(year, 2) == 28,
{
}

/// A calendar date given as year, month and day of month.
#[derive(Clone, Copy, Debug, PartialEq, Eq)]
pub struct CalendarDate {
    pub year: i32,
    pub month: u32,
    pub day: u32,
}

impl CalendarDate {
    /// The date exists and lies in the representable range of years.
    pub open spec fn wf(&self) -> bool {
        MIN_YEAR <= self.year <= MAX_YEAR && 1 <= self.month <= 12 && 1 <= self.day
            && self.day <= days_in_month(self.year as int, self.month as int)
    }
}

/// Whether `year` is a leap year.
pub fn is_leap_year(year: i32) -> (r: bool)
    ensures
        r == is_leap(year as int),
{
    // shifting by a multiple of 400 keeps every remainder the rule looks at
    let shifted: u64 = (year as i64 + 2_147_484_000i64) as u64;
    let r4 = shifted % 4;
    let r100 = shifted % 100;
    let r400 = shifted % 400;
    assert(shifted as int == year as int + 400 * 5_368_710);
    (r4 == 0 && r100 != 0) || r400 == 0
}

/// Number of days in `month` of `year`.
pub fn get_num_days(year: i32, month: u32) -> (r: i32)
    requires
        1 <= month <= 12,
    ensures
        r == days_in_month(year as int, month as int),
        28 <= r <= 31,
{
    if month == 2 {
        if is_leap_year(year) {
            29
        } else {
            28
        }
    } else if month == 4 || month == 6 || month == 9 || month == 11 {
        30
    } else {
        31
    }
}

/// The month before (`year`, `month`), December of the year before for January.
pub open spec fn previous_month(year: int, month: int) -> (int, int) {
    if month == 1 { (year - 1, 12) } else { (year, month - 1) }
}

/// The month after (`year`, `month`), January of the year after for December.
pub open spec fn next_month(year: int, month: int) -> (int, int) {
    if month == 12 { (year + 1, 1) } else { (year, month + 1) }
}

/// Number of days of the month that precedes `month` of `year`.
pub fn prev_month_days(year: i32, month: u32) -> (r: i32)
    requires
        1 <= month <= 12,
        year > i32::MIN,
    ensures
        r == days_in_month(previous_month(year as int, month as int).0,
            previous_month(year as int, month as int).1),
        28 <= r <= 31,
{
    if month == 1 {
        get_num_days(year - 1, 12)
    } else {
        get_num_days(year, month - 1)
    }
}

/// The date from which week `index` of the month (`year`, `month`) is drawn:
/// day `7 * index + 1` of the month while the month has it, else the first
/// day of the following month.
pub open spec fn week_anchor(year: int, month: int, index: int) -> (int, int, int) {
    let d = 7 * index + 1;
    if d <= days_in_month(year, month) {
        (year, month, d)
    } else {
        (next_month(year, month).0, next_month(year, month).1, 1)
    }
}

/// Date from which row `index` of the calendar of (`year`, `month`) is built.
pub fn week_start(year: i32, month: u32, index: u32) -> (r: CalendarDate)
    requires
        MIN_YEAR <= year < MAX_YEAR,
        1 <= month <= 12,
        index <= 5,
    ensures
        (r.year as int, r.month as int, r.day as int) == week_anchor(
            year as int,
            month as int,
            index as int,
        ),
        r.wf(),
{
    let d: u32 = 7 * index + 1;
    let n = get_num_days(year, month);
    if d <= n as u32 {
        CalendarDate { year, month, day: d }
    } else if month == 12 {
        CalendarDate { year: year + 1, month: 1, day: 1 }
    } else {
        CalendarDate { year, month: month + 1, day: 1 }
    }
}

} // verus!
