use datebar::calendar::{render, render_tooltip, weekday_header, weeks_in_month};
use datebar::gregorian::{get_num_days, is_leap_year, prev_month_days, week_start, CalendarDate};
use datebar::text::right_aligned;
use datebar::week_row::{build_weekdays, format_week_row};

fn date(year: i32, month: u32, day: u32) -> CalendarDate {
    CalendarDate { year, month, day }
}

fn row(parts: &[&str]) -> String {
    parts.iter().map(|p| format!("{:>7}", p)).collect()
}

#[test]
fn days_in_month_examples() {
    assert_eq!(get_num_days(2024, 2), 29);
    assert_eq!(get_num_days(1900, 2), 28);
    assert_eq!(get_num_days(2000, 2), 29);
    assert_eq!(get_num_days(2023, 4), 30);
    assert_eq!(get_num_days(2023, 1), 31);
    assert_eq!(get_num_days(2023, 12), 31);
}

#[test]
fn days_in_month_stay_in_range() {
    for year in [1900, 2000, 2023, 2024, -4, -100] {
        for month in 1..=12u32 {
            let n = get_num_days(year, month);
            assert!((28..=31).contains(&n));
        }
    }
}

#[test]
fn leap_year_rule() {
    assert!(is_leap_year(2000));
    assert!(!is_leap_year(1900));
    assert!(is_leap_year(2024));
    assert!(!is_leap_year(2023));
    assert!(is_leap_year(-4));
    assert!(!is_leap_year(-100));
    assert_eq!(get_num_days(2023, 2), 28);
}

#[test]
fn previous_month_lengths() {
    assert_eq!(prev_month_days(2024, 1), 31);
    assert_eq!(prev_month_days(2024, 3), 29);
    assert_eq!(prev_month_days(2023, 5), 30);
}

#[test]
fn week_start_walks_and_rolls_over() {
    assert_eq!(week_start(2023, 3, 4), date(2023, 3, 29));
    assert_eq!(week_start(2023, 10, 5), date(2023, 11, 1));
    assert_eq!(week_start(2023, 12, 5), date(2024, 1, 1));
    assert_eq!(week_start(2026, 2, 4), date(2026, 3, 1));
    assert_eq!(week_start(2026, 10, 0), date(2026, 10, 1));
}

#[test]
fn week_number_cells() {
    let today = date(2026, 10, 19);
    let ws = date(2026, 1, 15);
    let early = format_week_row(&today, &ws, 31, 4, 3, true);
    assert!(early.starts_with("    #03"));
    let later = format_week_row(&today, &ws, 31, 4, 13, true);
    assert!(later.starts_with("     13"));
    let none = format_week_row(&today, &ws, 31, 4, 13, false);
    assert!(!none.contains('#'));
    assert_eq!(none.len(), 49);
}

#[test]
fn rows_have_seven_day_cells() {
    let today = date(2026, 10, 19);
    for day in [1u32, 8, 15, 22, 29] {
        let ws = date(2026, 10, day);
        assert_eq!(build_weekdays(&today, &ws, 30, false).len(), 49);
        assert_eq!(build_weekdays(&today, &ws, 30, true).len(), 56);
    }
}

#[test]
fn row_crossing_march_into_april() {
    let today = date(2023, 4, 15);
    let march = build_weekdays(&today, &date(2023, 3, 30), 28, false);
    assert!(march.starts_with(&row(&["27", "28", "29", "30"])));
    assert_eq!(march, row(&["27", "28", "29", "30", "31", "32", "33"]));
    let april = build_weekdays(&today, &date(2023, 4, 1), 31, false);
    assert_eq!(april, row(&["27", "28", "29", "30", "31", "01", "02"]));
}

#[test]
fn row_blanks_today_only_in_its_month() {
    let today = date(2026, 10, 2);
    let first = build_weekdays(&today, &date(2026, 10, 1), 30, false);
    assert_eq!(first, row(&["28", "29", "30", "01", " ", "03", "04"]));
    let other = date(2026, 11, 2);
    let not_blanked = build_weekdays(&other, &date(2026, 10, 1), 30, false);
    assert_eq!(not_blanked, row(&["28", "29", "30", "01", "02", "03", "04"]));
    let inside = build_weekdays(&date(2026, 10, 21), &date(2026, 10, 15), 30, true);
    assert_eq!(inside, row(&["42", "12", "13", "14", "15", "16", "17", "18"]));
}

#[test]
fn header_row() {
    assert_eq!(
        weekday_header(),
        row(&["", "Mon", "Tue", "Wed", "Thu", "Fri", "Sat", "Sun"])
    );
}

#[test]
fn right_alignment() {
    assert_eq!(right_aligned("7", 3), "  7");
    assert_eq!(right_aligned("abcd", 3), "abcd");
    assert_eq!(right_aligned("", 2), "  ");
}

#[test]
fn week_counts() {
    assert_eq!(weeks_in_month(2023, 10), 6);
    assert_eq!(weeks_in_month(2026, 10), 5);
    assert_eq!(weeks_in_month(2021, 2), 4);
    assert_eq!(weeks_in_month(2026, 2), 5);
}

#[test]
fn tooltip_for_a_known_day() {
    let expected = [
        " October 2026".to_string(),
        "Week #43".to_string(),
        row(&["", "Mon", "Tue", "Wed", "Thu", "Fri", "Sat", "Sun"]),
        row(&["40", "28", "29", "30", "01", "02", "03", "04"]),
        row(&["41", "05", "06", "07", "08", "09", "10", "11"]),
        row(&["42", "12", "13", "14", "15", "16", "17", "18"]),
        row(&["43", " ", "20", "21", "22", "23", "24", "25"]),
        row(&["44", "26", "27", "28", "29", "30", "31", "32"]),
    ]
    .join("\n");
    assert_eq!(render_tooltip(&date(2026, 10, 19)), expected);
}

#[test]
fn tooltip_rolls_into_next_month() {
    let tooltip = render_tooltip(&date(2023, 10, 5));
    let lines: Vec<&str> = tooltip.lines().collect();
    assert_eq!(lines.len(), 9);
    assert_eq!(lines[0], " October 2023");
    assert_eq!(lines[1], "Week #40");
    assert_eq!(lines[8], row(&["44", "30", "31", "01", "02", "03", "04", "05"]));
}

#[test]
fn exactly_one_blank_cell_in_a_month() {
    let tooltip = render_tooltip(&date(2026, 10, 19));
    let blanks: usize = tooltip
        .lines()
        .skip(3)
        .map(|l| {
            (0..l.len() / 7)
                .filter(|k| &l[k * 7..k * 7 + 7] == "       ")
                .count()
        })
        .sum();
    assert_eq!(blanks, 1);
}

#[test]
fn rendering_is_deterministic() {
    let today = date(2024, 2, 29);
    let a = render(&today);
    let b = render(&today);
    assert_eq!(a.class, b.class);
    assert_eq!(a.text, b.text);
    assert_eq!(a.tooltip, b.tooltip);
}

#[test]
fn payload_fields() {
    let p = render(&date(2026, 10, 19));
    assert_eq!(p.class, "date");
    assert_eq!(p.text, "Monday, October 19, 2026");
    let q = render(&date(2026, 3, 5));
    assert_eq!(q.text, "Thursday, March 5, 2026");
    assert!(q.tooltip.starts_with(" March 2026\nWeek #10\n"));
}

#[test]
fn payload_as_json_object() {
    let p = render(&date(2026, 10, 19));
    let mut map = serde_json::Map::new();
    map.insert("class".to_string(), serde_json::Value::String(p.class.clone()));
    map.insert("text".to_string(), serde_json::Value::String(p.text.clone()));
    map.insert("tooltip".to_string(), serde_json::Value::String(p.tooltip.clone()));
    let line = serde_json::Value::Object(map).to_string();
    assert!(!line.contains('\n'));
    let parsed: serde_json::Value = serde_json::from_str(&line).unwrap();
    let obj = parsed.as_object().unwrap();
    assert_eq!(obj.len(), 3);
    for key in ["class", "text", "tooltip"] {
        assert!(obj.get(key).unwrap().is_string());
    }
    assert_eq!(obj["tooltip"].as_str().unwrap(), p.tooltip);
}

#[test]
fn tooltip_crosses_into_new_year() {
    let expected = [
        " December 2024".to_string(),
        "Week #50".to_string(),
        row(&["", "Mon", "Tue", "Wed", "Thu", "Fri", "Sat", "Sun"]),
        row(&["48", "25", "26", "27", "28", "29", "30", "01"]),
        row(&["49", "02", "03", "04", "05", "06", "07", "08"]),
        row(&["50", "09", " ", "11", "12", "13", "14", "15"]),
        row(&["51", "16", "17", "18", "19", "20", "21", "22"]),
        row(&["52", "23", "24", "25", "26", "27", "28", "29"]),
        row(&["#01", "30", "31", "01", "02", "03", "04", "05"]),
    ]
    .join("\n");
    assert_eq!(render_tooltip(&date(2024, 12, 10)), expected);
}

#[test]
fn row_from_a_later_day_of_a_straddling_week() {
    // the previous month's tail is followed by the days from `week_start` on
    let today = date(2026, 10, 19);
    let r = build_weekdays(&today, &date(2026, 10, 2), 30, false);
    assert_eq!(r, row(&["28", "29", "30", "02", "03", "04"]));
}

#[test]
fn day_in_a_rolled_over_week_is_not_blanked() {
    let tooltip = render_tooltip(&date(2023, 10, 30));
    assert!(!tooltip.lines().skip(3).any(|l| l.contains("       ")));
    let last = tooltip.lines().last().unwrap().to_string();
    assert_eq!(last, row(&["44", "30", "31", "01", "02", "03", "04", "05"]));
}
