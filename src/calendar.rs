//! The whole calendar: the weekday header, one row per week of today's
//! month, and the status-bar payload built around them.
use crate::chrono_bridge::{
    iso_week, iso_week_of, iso_weekday, long_date_label, long_date_text, month_year_label,
    month_year_text, weekday_count, weekday_number,
};
use crate::gregorian::{
    days_in_month, get_num_days, next_month, prev_month_days, previous_month, week_anchor,
    week_start, CalendarDate, MAX_YEAR,
};
use crate::text::{
    push_right_aligned, push_spaces, push_zero_padded, right_align, spaces, zero_padded,
};
use crate::week_row::{build_weekdays, row_cells, row_text, Cell, CELL_WIDTH};
use vstd::prelude::*;

verus! {

/// Abbreviation of weekday `k`, counted from Monday = 0.
pub open spec fn weekday_abbrev(k: int) -> Seq<char> {
    if k == 0 { "Mon"@ }
    else if k == 1 { "Tue"@ }
    else if k == 2 { "Wed"@ }
    else if k == 3 { "Thu"@ }
    else if k == 4 { "Fri"@ }
    else if k == 5 { "Sat"@ }
    else { "Sun"@ }
}

/// The first `n` weekday abbreviations, each right-aligned to a cell.
pub open spec fn header_cells(n: nat) -> Seq<char>
    decreases n,
{
    if n == 0 {
        seq![]
    } else {
        header_cells((n - 1) as nat) + right_align(weekday_abbrev(n - 1), CELL_WIDTH as nat)
    }
}

/// The header row: a blank gutter as wide as the week-number cell, then the
/// seven weekday abbreviations from Monday on.
pub open spec fn header_text() -> Seq<char> {
    spaces(CELL_WIDTH as nat) + header_cells(7)
}

/// Number of rows that the calendar of (`year`, `month`) shows: the number of
/// Monday-first weeks that hold a day of the month. Within one ISO year this
/// is the ISO week of the month's last day minus that of its first day, plus
/// one; counted this way it stays right for the months in which ISO week
/// numbering restarts.
pub open spec fn weeks_shown(year: int, month: int) -> int {
    (iso_weekday(year, month, 1) - 1 + days_in_month(year, month) + 6) / 7
}

/// The date from which row `index` of the calendar of (`year`, `month`) is
/// drawn.
pub open spec fn row_anchor(year: int, month: int, index: int) -> CalendarDate {
    let a = week_anchor(year, month, index);
    CalendarDate { year: a.0 as i32, month: a.1 as u32, day: a.2 as u32 }
}

/// Row `index` of the calendar of today's month, with week numbers.
pub open spec fn calendar_row(today: CalendarDate, index: int) -> Seq<char> {
    let ws = row_anchor(today.year as int, today.month as int, index);
    let p = previous_month(ws.year as int, ws.month as int);
    row_text(
        today,
        ws,
        days_in_month(p.0, p.1),
        iso_weekday(ws.year as int, ws.month as int, ws.day as int),
        iso_week_of(ws.year as int, ws.month as int, ws.day as int),
        true,
    )
}

/// The first `n` rows of the calendar of today's month, each after a newline.
pub open spec fn calendar_rows(today: CalendarDate, n: nat) -> Seq<char>
    decreases n,
{
    if n == 0 {
        seq![]
    } else {
        calendar_rows(today, (n - 1) as nat) + seq!['\n'] + calendar_row(today, n - 1)
    }
}

/// The tooltip: the month and year, the ISO week of today, the header row and
/// the rows of the month, one per line.
pub open spec fn tooltip_text(today: CalendarDate) -> Seq<char> {
    seq![' '] + month_year_text(today.year as int, today.month as int) + seq!['\n'] + "Week #"@
        + zero_padded(iso_week_of(today.year as int, today.month as int, today.day as int))
        + seq!['\n'] + header_text() + calendar_rows(
        today,
        weeks_shown(today.year as int, today.month as int) as nat,
    )
}

fn weekday_abbreviation(k: usize) -> (r: &'static str)
    requires
        k < 7,
    ensures
        r@ == weekday_abbrev(k as int),
{
    if k == 0 {
        "Mon"
    } else if k == 1 {
        "Tue"
    } else if k == 2 {
        "Wed"
    } else if k == 3 {
        "Thu"
    } else if k == 4 {
        "Fri"
    } else if k == 5 {
        "Sat"
    } else {
        "Sun"
    }
}

/// The header row of the calendar.
pub fn weekday_header() -> (r: String)
    ensures
        r@ == header_text(),
{
    let mut line = String::new();
    push_spaces(&mut line, CELL_WIDTH);
    assert(line@ =~= spaces(CELL_WIDTH as nat) + header_cells(0));
    let mut k: usize = 0;
    while k < 7
        invariant
            k <= 7,
            line@ == spaces(CELL_WIDTH as nat) + header_cells(k as nat),
        decreases 7 - k,
    {
        push_right_aligned(&mut line, weekday_abbreviation(k), CELL_WIDTH);
        k = k + 1;
        assert(line@ =~= spaces(CELL_WIDTH as nat) + header_cells(k as nat));
    }
    line
}

/// Number of rows that the calendar of (`year`, `month`) shows.
pub fn weeks_in_month(year: i32, month: u32) -> (r: u32)
    requires
        (CalendarDate { year, month, day: 1 }).wf(),
    ensures
        r as int == weeks_shown(year as int, month as int),
        4 <= r <= 6,
{
    let first = CalendarDate { year, month, day: 1 };
    let wd = weekday_number(&first);
    let n = get_num_days(year, month);
    (wd - 1 + n as u32 + 6) / 7
}

/// The tooltip text of the calendar for `today`.
pub fn render_tooltip(today: &CalendarDate) -> (r: String)
    requires
        today.wf(),
        today.year < MAX_YEAR,
    ensures
        r@ == tooltip_text(*today),
{
    proof {
        reveal_strlit(" ");
        reveal_strlit("\n");
    }
    let mut out = String::new();
    out.append(" ");
    let label = month_year_label(today);
    out.append(label.as_str());
    out.append("\n");
    out.append("Week #");
    push_zero_padded(&mut out, iso_week(today));
    out.append("\n");
    let header = weekday_header();
    out.append(header.as_str());
    let ghost head = out@;
    assert(head =~= seq![' '] + month_year_text(today.year as int, today.month as int) + seq!['\n']
        + "Week #"@ + zero_padded(iso_week_of(today.year as int, today.month as int, today.day as int))
        + seq!['\n'] + header_text());

    let weeks = weeks_in_month(today.year, today.month);
    let mut i: u32 = 0;
    while i < weeks
        invariant
            i <= weeks <= 6,
            today.wf(),
            today.year < MAX_YEAR,
            out@ == head + calendar_rows(*today, i as nat),
        decreases weeks - i,
    {
        let ws = week_start(today.year, today.month, i);
        let prev = prev_month_days(ws.year, ws.month);
        let row = build_weekdays(today, &ws, prev, true);
        proof {
            reveal_strlit("\n");
        }
        out.append("\n");
        out.append(row.as_str());
        assert(ws == row_anchor(today.year as int, today.month as int, i as int));
        i = i + 1;
        assert(out@ =~= head + calendar_rows(*today, i as nat));
    }
    out
}

/// What the status bar shows: a class name, the date line and the calendar
/// tooltip.
pub struct Payload {
    pub class: String,
    pub text: String,
    pub tooltip: String,
}

/// The status-bar payload for `today`.
pub fn render(today: &CalendarDate) -> (r: Payload)
    requires
        today.wf(),
        today.year < MAX_YEAR,
    ensures
        r.class@ == "date"@,
        r.text@ == long_date_text(today.year as int, today.month as int, today.day as int),
        r.tooltip@ == tooltip_text(*today),
{
    Payload {
        class: String::from_str("date"),
        text: long_date_label(today),
        tooltip: render_tooltip(today),
    }
}

/// Rendering depends on the date alone: the same `today` always gives the
/// same tooltip and the same date line.
pub proof fn lemma_render_deterministic(a: CalendarDate, b: CalendarDate)
    requires
        a == b,
    ensures
        tooltip_text(a) == tooltip_text(b),
        long_date_text(a.year as int, a.month as int, a.day as int) == long_date_text(
            b.year as int,
            b.month as int,
            b.day as int,
        ),
{
}

/// The cell in row `r`, column `k` of the calendar of today's month.
#[verifier::opaque]
pub open spec fn calendar_cell(today: CalendarDate, r: int, k: int) -> Cell {
    let ws = row_anchor(today.year as int, today.month as int, r);
    let p = previous_month(ws.year as int, ws.month as int);
    row_cells(
        today.day as int,
        ws.month == today.month,
        iso_weekday(ws.year as int, ws.month as int, ws.day as int),
        ws.day as int,
        days_in_month(p.0, p.1),
    )[k]
}

/// Index of the Monday-first week of (`year`, `month`) that holds `day`.
pub open spec fn week_index(year: int, month: int, day: int) -> int {
    (iso_weekday(year, month, 1) + day - 2) / 7
}

proof fn lemma_weekday_shift(year: int, month: int, day: int, r: int)
    requires
        r >= 0,
    ensures
        iso_weekday(year, month, day + 7 * r) == iso_weekday(year, month, day),
{
    assert(weekday_count(year, month, day + 7 * r) == weekday_count(year, month, day) + 7 * r);
    assert((weekday_count(year, month, day) + 7 * r) % 7 == weekday_count(year, month, day) % 7)
        by (nonlinear_arith);
}

proof fn lemma_next_month_weekday(year: int, month: int)
    requires
        1 <= month <= 12,
    ensures
        (weekday_count(next_month(year, month).0, next_month(year, month).1, 1) - weekday_count(
            year,
            month,
            1,
        ) - days_in_month(year, month)) % 7 == 0,
{
}

proof fn lemma_in_month_cell(today: CalendarDate, r: int, k: int)
    requires
        today.wf(),
        0 <= r,
        0 <= k < 7,
        7 * r + 1 <= days_in_month(today.year as int, today.month as int),
    ensures
        calendar_cell(today, r, k) == Cell::Blank <==> 7 * r + k + 2 - iso_weekday(
            today.year as int,
            today.month as int,
            1,
        ) == today.day,
{
    reveal(calendar_cell);
    let y = today.year as int;
    let m = today.month as int;
    lemma_weekday_shift(y, m, 1, r);
    let ws = row_anchor(y, m, r);
    assert(ws.year == today.year && ws.month == today.month && ws.day == 7 * r + 1);
    let p = previous_month(y, m);
    let pd = days_in_month(p.0, p.1);
    assert(28 <= pd <= 31);
    let w1 = iso_weekday(y, m, 1);
    let cs = row_cells(today.day as int, true, w1, 7 * r + 1, pd);
    if 7 * r + 1 < w1 {
        if k < w1 - 1 - 7 * r {
            assert(cs[k] == Cell::Plain((pd + 7 * r + 1 - w1 + 1 + k) as u32));
        }
    }
}

proof fn lemma_rollover_cell(today: CalendarDate, r: int, k: int)
    requires
        today.wf(),
        today.year < MAX_YEAR,
        0 <= k < 7,
        7 * r + 1 > days_in_month(today.year as int, today.month as int),
        r < weeks_shown(today.year as int, today.month as int),
    ensures
        calendar_cell(today, r, k) != Cell::Blank,
{
    reveal(calendar_cell);
    let y = today.year as int;
    let m = today.month as int;
    let dim = days_in_month(y, m);
    let n = next_month(y, m);
    let ws = row_anchor(y, m, r);
    assert(ws.year == n.0 && ws.month == n.1 && ws.day == 1);
    assert(ws.month != today.month);
    lemma_next_month_weekday(y, m);
    let wn = iso_weekday(n.0, n.1, 1);
    let w1 = iso_weekday(y, m, 1);
    let n1 = weekday_count(y, m, 1);
    let nn = weekday_count(n.0, n.1, 1);
    if wn == 1 {
        assert(nn % 7 == 1);
        assert((w1 - n1) % 7 == 0);
        assert((w1 - 1 + dim) % 7 == 0) by (nonlinear_arith)
            requires
                (w1 - n1) % 7 == 0,
                (nn - n1 - dim) % 7 == 0,
                nn % 7 == 1,
        ;
        assert(weeks_shown(y, m) == (w1 - 1 + dim) / 7);
        assert(false);
    }
    let p = previous_month(n.0, n.1);
    let pd = days_in_month(p.0, p.1);
    let cs = row_cells(today.day as int, false, wn, 1, pd);
    if k < wn - 1 {
        assert(cs[k] == Cell::Plain((pd + 1 - wn + 1 + k) as u32));
    } else {
        assert(cs[k] == Cell::Padded((1 + k - (wn - 1)) as u32));
    }
}

proof fn lemma_today_position(today: CalendarDate)
    requires
        today.wf(),
    ensures
        ({
            let y = today.year as int;
            let m = today.month as int;
            let w1 = iso_weekday(y, m, 1);
            let t = week_index(y, m, today.day as int);
            let c = (w1 + today.day - 2) % 7;
            &&& 0 <= t < weeks_shown(y, m)
            &&& 0 <= c < 7
            &&& w1 + today.day - 2 == 7 * t + c
            &&& c == iso_weekday(y, m, today.day as int) - 1
        }),
{
    let y = today.year as int;
    let m = today.month as int;
    let d = today.day as int;
    let dim = days_in_month(y, m);
    let w1 = iso_weekday(y, m, 1);
    let t = week_index(y, m, d);
    let c = (w1 + d - 2) % 7;
    assert(w1 + d - 2 == 7 * t + c);
    assert(0 <= t < weeks_shown(y, m));
    let n1 = weekday_count(y, m, 1);
    assert(weekday_count(y, m, d) == n1 + (d - 1));
    assert((w1 - n1) % 7 == 0);
    assert((w1 + d - 2) % 7 == (n1 + d - 2) % 7) by (nonlinear_arith)
        requires
            (w1 - n1) % 7 == 0,
    ;
}

/// Across the whole calendar of today's month exactly one cell is blank, and
/// it is the cell of today's day: the row of today's week, at today's
/// weekday. This holds whenever the row of today's week is drawn from a day
/// of today's month; a week that the calendar reaches only by rolling over
/// into the next month shows today's month as its previous-month tail, which
/// is never blanked.
pub proof fn lemma_calendar_blanks_today_once(today: CalendarDate)
    requires
        today.wf(),
        today.year < MAX_YEAR,
        7 * week_index(today.year as int, today.month as int, today.day as int) + 1
            <= days_in_month(today.year as int, today.month as int),
    ensures
        ({
            let y = today.year as int;
            let m = today.month as int;
            let t = week_index(y, m, today.day as int);
            let c = (iso_weekday(y, m, 1) + today.day - 2) % 7;
            &&& 0 <= t < weeks_shown(y, m)
            &&& 0 <= c < 7
            &&& c == iso_weekday(y, m, today.day as int) - 1
            &&& calendar_cell(today, t, c) == Cell::Blank
            &&& forall|r: int, k: int|
                0 <= r < weeks_shown(y, m) && 0 <= k < 7 && calendar_cell(today, r, k)
                    == Cell::Blank ==> r == t && k == c
        }),
{
    let y = today.year as int;
    let m = today.month as int;
    let d = today.day as int;
    let t = week_index(y, m, d);
    let c = (iso_weekday(y, m, 1) + d - 2) % 7;
    lemma_today_position(today);
    lemma_in_month_cell(today, t, c);
    assert forall|r: int, k: int|
        0 <= r < weeks_shown(y, m) && 0 <= k < 7 && calendar_cell(today, r, k)
            == Cell::Blank implies r == t && k == c by {
        if 7 * r + 1 <= days_in_month(y, m) {
            lemma_in_month_cell(today, r, k);
        } else {
            lemma_rollover_cell(today, r, k);
        }
    }
}

} // verus!
