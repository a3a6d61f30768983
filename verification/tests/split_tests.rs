use affiliations::dates::calendar_date_from;
use affiliations::dates::current_calendar_date;
use affiliations::dates::CalendarDate;
use affiliations::dates::format_date;
use affiliations::history::generate_new_affiliation_with_pingcap;
use affiliations::split::split_str;
use affiliations::split::str_eq;

use chrono::Datelike;

#[test]
fn splitting_basics() {
    assert_eq!(split_str("", ", "), vec!["".to_string()]);
    assert_eq!(split_str("a", ", "), vec!["a".to_string()]);
    assert_eq!(split_str("a, b", ", "), vec!["a".to_string(), "b".to_string()]);
    assert_eq!(
        split_str("a, , b", ", "),
        vec!["a".to_string(), "".to_string(), "b".to_string()]
    );
    // A bare comma is not a separator.
    assert_eq!(split_str("a,b, c", ", "), vec!["a,b".to_string(), "c".to_string()]);
    // Separators are found leftmost-first, without overlap.
    assert_eq!(split_str("x,, y", ", "), vec!["x,".to_string(), "y".to_string()]);
    assert_eq!(
        split_str("PwC < 2020-01-01", " < "),
        vec!["PwC".to_string(), "2020-01-01".to_string()]
    );
}

#[test]
fn string_equality_by_characters() {
    assert!(str_eq("", ""));
    assert!(str_eq("PingCAP", "PingCAP"));
    assert!(!str_eq("PingCAP", "pingcap"));
    assert!(!str_eq("PingCAP", "PingCA"));
    assert!(str_eq("Qîlin", "Qîlin"));
    assert!(!str_eq("Qîlin", "Qilin"));
}

#[test]
fn merge_handles_non_ascii_histories() {
    let next = generate_new_affiliation_with_pingcap("Ünicorn < 2020-01-01, Qîlin")
        .unwrap()
        .unwrap();
    assert_eq!(next, "Ünicorn < 2020-01-01, Qîlin < 2020-01-01, PingCAP");
}

#[test]
fn clock_values_become_dates_exactly_in_the_four_digit_range() {
    assert_eq!(
        calendar_date_from(2021, 6, 4),
        Some(CalendarDate { year: 2021, month: 6, day: 4 })
    );
    assert_eq!(
        calendar_date_from(0, 1, 1),
        Some(CalendarDate { year: 0, month: 1, day: 1 })
    );
    assert_eq!(
        calendar_date_from(9999, 12, 31),
        Some(CalendarDate { year: 9999, month: 12, day: 31 })
    );
    assert_eq!(calendar_date_from(-1, 6, 4), None);
    assert_eq!(calendar_date_from(10000, 6, 4), None);
}

#[test]
fn current_date_agrees_with_the_calendar() {
    let d = current_calendar_date().expect("today has a four-digit year");
    let now = chrono::Utc::now().date_naive();
    let expected = now.format("%Y-%m-%d").to_string();
    // Re-read the clock if midnight passed between the two calls.
    let rendered = format_date(&d);
    if rendered != expected {
        let d2 = current_calendar_date().expect("today has a four-digit year");
        let now2 = chrono::Utc::now().date_naive();
        assert_eq!(format_date(&d2), now2.format("%Y-%m-%d").to_string());
    } else {
        assert_eq!(rendered, expected);
        assert_eq!(d.year, now.year() as u64);
        assert_eq!(d.month, now.month() as u64);
        assert_eq!(d.day, now.day() as u64);
    }
}
