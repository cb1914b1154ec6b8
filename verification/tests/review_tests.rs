use bulletd_core::date::{day_count, Date};
use bulletd_core::layout::is_stale;

fn ymd(y: i32, m: u32, d: u32) -> Date {
    Date::from_ymd_opt(y, m, d).unwrap()
}

#[test]
fn day_count_matches_the_calendar() {
    assert_eq!(day_count(ymd(1, 1, 1)), 1);
    assert_eq!(day_count(ymd(0, 12, 31)), 0);
    assert_eq!(day_count(ymd(1970, 1, 1)), 719163);
    assert_eq!(day_count(ymd(2024, 3, 1)) - day_count(ymd(2024, 2, 28)), 2);
    assert_eq!(day_count(ymd(2023, 3, 1)) - day_count(ymd(2023, 2, 28)), 1);
    assert_eq!(day_count(ymd(-1, 1, 1)), -730);
}

#[test]
fn task_is_stale_once_threshold_days_have_passed() {
    assert!(!is_stale(ymd(2026, 4, 1), ymd(2026, 4, 3), 3));
    assert!(is_stale(ymd(2026, 4, 1), ymd(2026, 4, 4), 3));
    assert!(is_stale(ymd(2026, 4, 1), ymd(2026, 4, 20), 3));
}

#[test]
fn staleness_counts_across_months_and_years() {
    assert!(is_stale(ymd(2025, 12, 30), ymd(2026, 1, 2), 3));
    assert!(!is_stale(ymd(2025, 12, 31), ymd(2026, 1, 2), 3));
    assert!(is_stale(ymd(2024, 2, 28), ymd(2024, 3, 1), 2));
    assert!(!is_stale(ymd(2024, 2, 28), ymd(2024, 3, 1), 3));
}

#[test]
fn task_from_today_or_later_is_not_stale() {
    assert!(is_stale(ymd(2026, 4, 6), ymd(2026, 4, 6), 0));
    assert!(!is_stale(ymd(2026, 4, 6), ymd(2026, 4, 6), 1));
    assert!(!is_stale(ymd(2026, 4, 9), ymd(2026, 4, 6), 1));
}
