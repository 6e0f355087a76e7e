//! One row of the calendar grid: an optional week-number cell followed by
//! the seven day cells of a Monday-first week.
use crate::chrono_bridge::{iso_week, iso_week_of, iso_weekday, weekday_number};
use crate::gregorian::CalendarDate;
use crate::text::{
    decimal, push_decimal, push_right_aligned, push_zero_padded, right_align, zero_padded,
};
use vstd::prelude::*;

verus! {

/// Width of every cell of the grid, the week-number cell included.
pub const CELL_WIDTH: usize = 7;

/// What a day cell shows.
#[derive(Clone, Copy, Debug, PartialEq, Eq)]
pub enum Cell {
    /// Today's cell, shown empty.
    Blank,
    /// A day of the previous month, in plain digits.
    Plain(u32),
    /// A day of the row's own month, zero-padded to two digits.
    Padded(u32),
}

/// The text of one day cell.
pub open spec fn render_cell(c: Cell) -> Seq<char> {
    match c {
        Cell::Blank => right_align(seq![' '], CELL_WIDTH as nat),
        Cell::Plain(n) => right_align(decimal(n as int), CELL_WIDTH as nat),
        Cell::Padded(n) => right_align(zero_padded(n as int), CELL_WIDTH as nat),
    }
}

/// The text of a sequence of day cells, one after the other.
pub open spec fn render_cells(cs: Seq<Cell>) -> Seq<char>
    decreases cs.len(),
{
    if cs.len() == 0 {
        seq![]
    } else {
        render_cells(cs.drop_last()) + render_cell(cs.last())
    }
}

/// The week-number cell: `#` and two digits below week 10, the bare number
/// from week 10 on, right-aligned; nothing when week numbers are off.
pub open spec fn week_label(show: bool, week: int) -> Seq<char> {
    if !show {
        seq![]
    } else if week < 10 {
        right_align(seq!['#'] + zero_padded(week), CELL_WIDTH as nat)
    } else {
        right_align(decimal(week), CELL_WIDTH as nat)
    }
}

/// The day cells of the row drawn from a date that is day `day` of its month
/// and weekday `weekday` (Monday = 1); `prev_days` is the length of the month
/// before. Where the week starts in the previous month, its tail comes first,
/// then the row's own month from `day` to the end of the week; today's day
/// (`today_day`) is blanked there only when the row's month is today's month.
/// Otherwise the seven days from the week's Monday on are shown, with today's
/// day blanked.
pub open spec fn row_cells(
    today_day: int,
    same_month: bool,
    weekday: int,
    day: int,
    prev_days: int,
) -> Seq<Cell> {
    if day < weekday {
        let begin = prev_days + day - weekday + 1;
        Seq::new((weekday - day) as nat, |k: int| Cell::Plain((begin + k) as u32)) + Seq::new(
            (8 - weekday) as nat,
            |k: int|
                if same_month && day + k == today_day {
                    Cell::Blank
                } else {
                    Cell::Padded((day + k) as u32)
                },
        )
    } else {
        Seq::new(
            7,
            |k: int|
                if day - weekday + 1 + k == today_day {
                    Cell::Blank
                } else {
                    Cell::Padded((day - weekday + 1 + k) as u32)
                },
        )
    }
}

/// The whole text of a row.
pub open spec fn row_text(
    today: CalendarDate,
    week_start: CalendarDate,
    prev_days: int,
    weekday: int,
    week: int,
    show: bool,
) -> Seq<char> {
    week_label(show, week) + render_cells(
        row_cells(today.day as int, week_start.month == today.month, weekday, week_start.day as int, prev_days),
    )
}

fn push_cell(line: &mut String, c: Cell)
    requires
        match c {
            Cell::Blank => true,
            Cell::Plain(n) => n < 100,
            Cell::Padded(n) => n < 100,
        },
    ensures
        final(line)@ == old(line)@ + render_cell(c),
{
    let mut content = String::new();
    match c {
        Cell::Blank => {
            proof {
                reveal_strlit(" ");
            }
            content.append(" ");
        },
        Cell::Plain(n) => push_decimal(&mut content, n),
        Cell::Padded(n) => push_zero_padded(&mut content, n),
    }
    assert(content@ =~= match c {
        Cell::Blank => seq![' '],
        Cell::Plain(n) => decimal(n as int),
        Cell::Padded(n) => zero_padded(n as int),
    });
    push_right_aligned(line, content.as_str(), CELL_WIDTH);
}

proof fn lemma_render_push(cs: Seq<Cell>, c: Cell)
    ensures
        render_cells(cs.push(c)) == render_cells(cs) + render_cell(c),
{
    assert(cs.push(c).drop_last() =~= cs);
}

/// Every day cell is exactly one cell wide.
pub proof fn lemma_render_cells_len(cs: Seq<Cell>)
    ensures
        render_cells(cs).len() == cs.len() * CELL_WIDTH,
    decreases cs.len(),
{
    if cs.len() > 0 {
        lemma_render_cells_len(cs.drop_last());
    }
}

/// A row holds exactly seven day cells, each `CELL_WIDTH` characters wide,
/// after at most one week-number cell of the same width. This holds whenever
/// the week starts within the row's own month, or the row is drawn from the
/// first day of its month, which is how the calendar draws every row.
pub proof fn lemma_row_has_seven_day_cells(
    today_day: int,
    same_month: bool,
    weekday: int,
    day: int,
    prev_days: int,
    show: bool,
    week: int,
)
    requires
        1 <= weekday <= 7,
        1 <= day <= 31,
        weekday <= day || day == 1,
        28 <= prev_days <= 31,
        1 <= week <= 53,
    ensures
        row_cells(today_day, same_month, weekday, day, prev_days).len() == 7,
        render_cells(row_cells(today_day, same_month, weekday, day, prev_days)).len() == 7
            * CELL_WIDTH,
        week_label(show, week).len() == if show {
            CELL_WIDTH as int
        } else {
            0
        },
{
    lemma_render_cells_len(row_cells(today_day, same_month, weekday, day, prev_days));
}

/// Within one row at most one cell is blank, and a cell is blank exactly when
/// today's day is among the days of the row's own month that the row shows
/// (for a row that starts in the previous month, only when the row's month is
/// today's month): the blank cell always stands for today.
pub proof fn lemma_row_blanks_only_today(
    today_day: int,
    same_month: bool,
    weekday: int,
    day: int,
    prev_days: int,
)
    requires
        1 <= weekday <= 7,
        1 <= day <= 31,
        28 <= prev_days <= 31,
    ensures
        ({
            let cs = row_cells(today_day, same_month, weekday, day, prev_days);
            &&& forall|i: int, j: int|
                0 <= i < cs.len() && 0 <= j < cs.len() && cs[i] == Cell::Blank && cs[j]
                    == Cell::Blank ==> i == j
            &&& (exists|k: int| 0 <= k < cs.len() && cs[k] == Cell::Blank) <==> if day < weekday {
                same_month && day <= today_day < day + 8 - weekday
            } else {
                day - weekday + 1 <= today_day <= day - weekday + 7
            }
        }),
{
    let cs = row_cells(today_day, same_month, weekday, day, prev_days);
    if day < weekday {
        let t = weekday - day;
        assert forall|k: int| 0 <= k < cs.len() && cs[k] == Cell::Blank implies t <= k && same_month
            && day + (k - t) == today_day by {
            if k < t {
                assert(cs[k] == Cell::Plain((prev_days + day - weekday + 1 + k) as u32));
            }
        }
        if same_month && day <= today_day < day + 8 - weekday {
            assert(cs[t + today_day - day] == Cell::Blank);
        }
    } else {
        assert forall|k: int| 0 <= k < cs.len() && cs[k] == Cell::Blank implies day - weekday + 1
            + k == today_day by {}
        if day - weekday + 1 <= today_day <= day - weekday + 7 {
            assert(cs[today_day - (day - weekday + 1)] == Cell::Blank);
        }
    }
}

/// Builds a row from the weekday and the ISO week number of `week_start`,
/// given as `weekday` and `week`.
pub fn format_week_row(
    today: &CalendarDate,
    week_start: &CalendarDate,
    prev_month_days: i32,
    weekday: u32,
    week: u32,
    week_number: bool,
) -> (r: String)
    requires
        1 <= today.day <= 31,
        1 <= week_start.day <= 31,
        1 <= weekday <= 7,
        28 <= prev_month_days <= 31,
        1 <= week <= 53,
    ensures
        r@ == row_text(*today, *week_start, prev_month_days as int, weekday as int, week as int, week_number),
{
    let mut line = String::new();
    if week_number {
        let mut label = String::new();
        if week < 10 {
            proof {
                reveal_strlit("#");
            }
            label.append("#");
            push_zero_padded(&mut label, week);
        } else {
            push_decimal(&mut label, week);
        }
        assert(label@ =~= if week < 10 {
            seq!['#'] + zero_padded(week as int)
        } else {
            decimal(week as int)
        });
        push_right_aligned(&mut line, label.as_str(), CELL_WIDTH);
    }
    assert(line@ =~= week_label(week_number, week as int));
    let ghost label_text = line@;

    let wd = weekday as i32;
    let day = week_start.day as i32;
    let begin_week = if day - wd < 0 {
        prev_month_days + day - wd + 1
    } else {
        day - wd + 1
    };
    let end_week = day + (7 - wd) + 1;
    let ghost same = week_start.month == today.month;
    let ghost expected = row_cells(today.day as int, same, wd as int, day as int, prev_month_days as int);
    let ghost mut cells: Seq<Cell> = seq![];
    proof {
        reveal_with_fuel(render_cells, 1);
    }
    assert(line@ =~= label_text + render_cells(cells));

    if begin_week > end_week {
        let mut i: i32 = begin_week;
        while i <= prev_month_days
            invariant
                begin_week == prev_month_days + day - wd + 1,
                begin_week <= i <= prev_month_days + 1,
                28 <= prev_month_days <= 31,
                1 <= wd <= 7,
                1 <= day <= 31,
                cells =~= Seq::new((i - begin_week) as nat, |k: int| Cell::Plain((begin_week + k) as u32)),
                line@ == label_text + render_cells(cells),
            decreases prev_month_days + 1 - i,
        {
            push_cell(&mut line, Cell::Plain(i as u32));
            proof {
                lemma_render_push(cells, Cell::Plain(i as u32));
                cells = cells.push(Cell::Plain(i as u32));
            }
            i = i + 1;
        }
        let ghost tail = cells;
        let mut i: i32 = day;
        while i < end_week
            invariant
                day <= i <= end_week,
                end_week == day + (7 - wd) + 1,
                1 <= wd <= 7,
                1 <= day <= 31,
                1 <= today.day <= 31,
                same == (week_start.month == today.month),
                cells =~= tail + Seq::new(
                    (i - day) as nat,
                    |k: int|
                        if same && day + k == today.day {
                            Cell::Blank
                        } else {
                            Cell::Padded((day + k) as u32)
                        },
                ),
                line@ == label_text + render_cells(cells),
            decreases end_week - i,
        {
            let c = if i == today.day as i32 && week_start.month == today.month {
                Cell::Blank
            } else {
                Cell::Padded(i as u32)
            };
            push_cell(&mut line, c);
            proof {
                lemma_render_push(cells, c);
                cells = cells.push(c);
            }
            i = i + 1;
        }
    } else {
        let mut i: i32 = begin_week;
        while i < end_week
            invariant
                begin_week == day - wd + 1,
                end_week == begin_week + 7,
                begin_week <= i <= end_week,
                1 <= wd <= day <= 31,
                1 <= today.day <= 31,
                cells =~= Seq::new(
                    (i - begin_week) as nat,
                    |k: int|
                        if begin_week + k == today.day {
                            Cell::Blank
                        } else {
                            Cell::Padded((begin_week + k) as u32)
                        },
                ),
                line@ == label_text + render_cells(cells),
            decreases end_week - i,
        {
            let c = if i == today.day as i32 {
                Cell::Blank
            } else {
                Cell::Padded(i as u32)
            };
            push_cell(&mut line, c);
            proof {
                lemma_render_push(cells, c);
                cells = cells.push(c);
            }
            i = i + 1;
        }
    }
    assert(cells =~= expected);
    line
}

/// Builds the calendar row for the week that holds `week_start`:
/// `prev_month_days` is the length of the month before `week_start`'s month,
/// and `week_number` asks for the ISO week-number cell in front.
pub fn build_weekdays(
    today: &CalendarDate,
    week_start: &CalendarDate,
    prev_month_days: i32,
    week_number: bool,
) -> (r: String)
    requires
        today.wf(),
        week_start.wf(),
        28 <= prev_month_days <= 31,
    ensures
        r@ == row_text(
            *today,
            *week_start,
            prev_month_days as int,
            iso_weekday(week_start.year as int, week_start.month as int, week_start.day as int),
            iso_week_of(week_start.year as int, week_start.month as int, week_start.day as int),
            week_number,
        ),
{
    let weekday = weekday_number(week_start);
    let week = iso_week(week_start);
    format_week_row(today, week_start, prev_month_days, weekday, week, week_number)
}

} // verus!
