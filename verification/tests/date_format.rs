use obsclip::date::CalendarDate;
use obsclip::vault::date_format::format_obsidian_date;

#[test]
fn formats_yyyy_mm_dd() {
    let d = CalendarDate::from_ymd_opt(2026, 6, 29).unwrap();
    assert_eq!(format_obsidian_date("YYYY-MM-DD", d), "2026-06-29");
}

#[test]
fn formats_nested_folder_pattern() {
    let d = CalendarDate::from_ymd_opt(2026, 6, 29).unwrap();
    assert_eq!(format_obsidian_date("YYYY/MM/DD", d), "2026/06/29");
}

#[test]
fn formats_names_from_chrono() {
    let d = CalendarDate::from_ymd_opt(2026, 6, 30).unwrap();
    assert_eq!(format_obsidian_date("dddd, MMMM", d), "Tuesday, June");
    assert_eq!(format_obsidian_date("ddd MMM YY", d), "Tue Jun 26");
    let d = CalendarDate::from_ymd_opt(2026, 6, 29).unwrap();
    assert_eq!(format_obsidian_date("dddd", d), "Monday");
}

#[test]
fn formats_unpadded_month_and_day() {
    let d = CalendarDate::from_ymd_opt(2026, 1, 5).unwrap();
    assert_eq!(format_obsidian_date("D.M.YYYY", d), "5.1.2026");
}

#[test]
fn names_put_in_are_not_read_again() {
    let d = CalendarDate::from_ymd_opt(2026, 3, 9).unwrap();
    assert_eq!(format_obsidian_date("MMMM", d), "March");
    assert_eq!(format_obsidian_date("D MMMM YYYY", d), "9 March 2026");
    let d = CalendarDate::from_ymd_opt(2026, 12, 1).unwrap();
    assert_eq!(format_obsidian_date("MMM", d), "Dec");
    let d = CalendarDate::from_ymd_opt(2026, 5, 4).unwrap();
    assert_eq!(format_obsidian_date("dddd MMMM", d), "Monday May");
}

#[test]
fn longest_token_wins_and_other_text_stays() {
    let d = CalendarDate::from_ymd_opt(2026, 3, 9).unwrap();
    assert_eq!(format_obsidian_date("YYY", d), "26Y");
    assert_eq!(format_obsidian_date("MMMMM", d), "March3");
    assert_eq!(format_obsidian_date("DDD", d), "099");
    assert_eq!(format_obsidian_date("dd d", d), "dd d");
    assert_eq!(format_obsidian_date("[Week] W", d), "[Week] W");
    assert_eq!(format_obsidian_date("", d), "");
}

#[test]
fn negative_and_small_years_are_padded_after_the_sign() {
    let d = CalendarDate::from_ymd_opt(-5, 2, 3).unwrap();
    assert_eq!(format_obsidian_date("YYYY|YY", d), "-005|-5");
    let d = CalendarDate::from_ymd_opt(7, 2, 3).unwrap();
    assert_eq!(format_obsidian_date("YYYY|YY", d), "0007|07");
}

#[test]
fn invalid_dates_are_rejected() {
    assert!(CalendarDate::from_ymd_opt(2026, 2, 29).is_none());
    assert!(CalendarDate::from_ymd_opt(2024, 2, 29).is_some());
    assert!(CalendarDate::from_ymd_opt(1900, 2, 29).is_none());
    assert!(CalendarDate::from_ymd_opt(2000, 2, 29).is_some());
    assert!(CalendarDate::from_ymd_opt(2026, 13, 1).is_none());
    assert!(CalendarDate::from_ymd_opt(2026, 4, 31).is_none());
    assert!(CalendarDate::from_ymd_opt(262143, 1, 1).is_none());
    assert!(CalendarDate::from_ymd_opt(-262143, 1, 1).is_some());
}

#[test]
fn weekday_names_across_calendar() {
    let cases = [
        ((1970, 1, 1), "Thursday"),
        ((2000, 2, 29), "Tuesday"),
        ((1900, 3, 1), "Thursday"),
        ((2024, 12, 31), "Tuesday"),
        ((9999, 12, 31), "Friday"),
        ((2026, 6, 28), "Sunday"),
        ((0, 1, 1), "Saturday"),
        ((-1, 12, 31), "Friday"),
    ];
    for ((y, m, d), name) in cases {
        let date = CalendarDate::from_ymd_opt(y, m, d).unwrap();
        assert_eq!(format_obsidian_date("dddd", date), name);
    }
    let d = CalendarDate::from_ymd_opt(1, 1, 1).unwrap();
    assert_eq!(format_obsidian_date("ddd", d), "Mon");
}
