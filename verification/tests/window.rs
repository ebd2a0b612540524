use cache_broker::window::{
    start_of_window, UpdateWindow, DAY_PATTERN, DAY_SECONDS, FIRST_MOMENT, LAST_MOMENT, WINDOW_DAYS,
};

#[test]
fn window_reaches_three_days_back() {
    assert_eq!(WINDOW_DAYS, 3);
    assert_eq!(DAY_SECONDS, 86_400);
    assert_eq!(start_of_window(1_700_000_000), Some(1_700_000_000 - 259_200));
    assert_eq!(start_of_window(0), Some(-259_200));
}

#[test]
fn window_start_before_the_first_moment_is_none() {
    assert_eq!(start_of_window(i64::MIN), None);
    assert_eq!(start_of_window(i64::MIN + 259_199), None);
    assert_eq!(start_of_window(i64::MIN + 259_200), Some(i64::MIN));
}

#[test]
fn window_names_both_days() {
    // 2023-11-14 22:13:20 UTC
    let window = UpdateWindow::ending_at(1_700_000_000).unwrap();
    assert_eq!(window.uploaded_gte, "2023-11-11");
    assert_eq!(window.uploaded_lte, "2023-11-14");
}

#[test]
fn window_crosses_months_and_years() {
    // 1970-01-01 00:00:00 UTC
    let window = UpdateWindow::ending_at(0).unwrap();
    assert_eq!(window.uploaded_gte, "1969-12-29");
    assert_eq!(window.uploaded_lte, "1970-01-01");
    // 2024-03-02 12:00:00 UTC, after a leap day
    let window = UpdateWindow::ending_at(1_709_380_800).unwrap();
    assert_eq!(window.uploaded_gte, "2024-02-28");
    assert_eq!(window.uploaded_lte, "2024-03-02");
}

#[test]
fn window_takes_the_day_of_the_last_second() {
    // 2023-11-14 23:59:59 UTC and the second after it
    let window = UpdateWindow::ending_at(1_700_006_399).unwrap();
    assert_eq!(window.uploaded_lte, "2023-11-14");
    let window = UpdateWindow::ending_at(1_700_006_400).unwrap();
    assert_eq!(window.uploaded_lte, "2023-11-15");
    assert_eq!(window.uploaded_gte, "2023-11-12");
}

#[test]
fn window_beyond_the_calendar_is_none() {
    assert!(UpdateWindow::ending_at(i64::MAX).is_none());
    assert!(UpdateWindow::ending_at(i64::MIN).is_none());
}

#[test]
fn window_between_needs_both_days() {
    let both = UpdateWindow::between(Some("a".to_string()), Some("b".to_string())).unwrap();
    assert_eq!((both.uploaded_gte.as_str(), both.uploaded_lte.as_str()), ("a", "b"));
    assert!(UpdateWindow::between(None, Some("b".to_string())).is_none());
    assert!(UpdateWindow::between(Some("a".to_string()), None).is_none());
}

#[test]
fn days_are_written_year_month_day() {
    assert_eq!(DAY_PATTERN, "%Y-%m-%d");
}

#[test]
fn window_reaches_to_the_last_second_of_the_calendar() {
    let window = UpdateWindow::ending_at(LAST_MOMENT).unwrap();
    assert_eq!(window.uploaded_lte, "+262142-12-31");
    assert_eq!(window.uploaded_gte, "+262142-12-28");
    assert!(UpdateWindow::ending_at(LAST_MOMENT + 1).is_none());
}

#[test]
fn window_reaches_back_to_the_first_second_of_the_calendar() {
    let window = UpdateWindow::ending_at(FIRST_MOMENT + 3 * 86_400).unwrap();
    assert_eq!(window.uploaded_gte, "-262143-01-01");
    assert_eq!(window.uploaded_lte, "-262143-01-04");
    assert!(UpdateWindow::ending_at(FIRST_MOMENT + 3 * 86_400 - 1).is_none());
}
