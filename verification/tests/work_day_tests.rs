use bulletd_core::date::{Date, Weekday};
use bulletd_core::work_day::{
    migration_target, next_work_day, picker_days, upcoming_work_days,
    upcoming_work_days_reachable, work_day_after, PICKER_DAYS,
};
use Weekday::{Fri, Mon, Sat, Sun, Thu, Tue, Wed};

fn ymd(y: i32, m: u32, d: u32) -> Date {
    Date::from_ymd_opt(y, m, d).unwrap()
}

fn weekdays_mon_fri() -> Vec<Weekday> {
    vec![Mon, Tue, Wed, Thu, Fri]
}

#[test]
fn next_work_day_default_from_each_weekday() {
    let wd = weekdays_mon_fri();
    // Reference week: 2026-05-04 Mon ... 2026-05-10 Sun
    assert_eq!(next_work_day(ymd(2026, 5, 4), &wd), ymd(2026, 5, 5)); // Mon -> Tue
    assert_eq!(next_work_day(ymd(2026, 5, 5), &wd), ymd(2026, 5, 6)); // Tue -> Wed
    assert_eq!(next_work_day(ymd(2026, 5, 6), &wd), ymd(2026, 5, 7)); // Wed -> Thu
    assert_eq!(next_work_day(ymd(2026, 5, 7), &wd), ymd(2026, 5, 8)); // Thu -> Fri
    assert_eq!(next_work_day(ymd(2026, 5, 8), &wd), ymd(2026, 5, 11)); // Fri -> Mon
    assert_eq!(next_work_day(ymd(2026, 5, 9), &wd), ymd(2026, 5, 11)); // Sat -> Mon
    assert_eq!(next_work_day(ymd(2026, 5, 10), &wd), ymd(2026, 5, 11)); // Sun -> Mon
}

#[test]
fn next_work_day_irregular_mon_thu_fri() {
    let wd = vec![Mon, Thu, Fri];
    // Reference week: 2026-05-04 Mon ... 2026-05-10 Sun
    assert_eq!(next_work_day(ymd(2026, 5, 4), &wd), ymd(2026, 5, 7)); // Mon -> Thu
    assert_eq!(next_work_day(ymd(2026, 5, 5), &wd), ymd(2026, 5, 7)); // Tue -> Thu
    assert_eq!(next_work_day(ymd(2026, 5, 6), &wd), ymd(2026, 5, 7)); // Wed -> Thu
    assert_eq!(next_work_day(ymd(2026, 5, 7), &wd), ymd(2026, 5, 8)); // Thu -> Fri
    assert_eq!(next_work_day(ymd(2026, 5, 8), &wd), ymd(2026, 5, 11)); // Fri -> Mon
    assert_eq!(next_work_day(ymd(2026, 5, 9), &wd), ymd(2026, 5, 11)); // Sat -> Mon
    assert_eq!(next_work_day(ymd(2026, 5, 10), &wd), ymd(2026, 5, 11)); // Sun -> Mon
}

#[test]
fn next_work_day_single_element_always_lands_on_that_weekday() {
    let wd = vec![Mon];
    // From any day in a week, next work day is the next Monday.
    assert_eq!(next_work_day(ymd(2026, 5, 4), &wd), ymd(2026, 5, 11)); // Mon -> next Mon
    assert_eq!(next_work_day(ymd(2026, 5, 5), &wd), ymd(2026, 5, 11)); // Tue -> Mon
    assert_eq!(next_work_day(ymd(2026, 5, 8), &wd), ymd(2026, 5, 11)); // Fri -> Mon
    assert_eq!(next_work_day(ymd(2026, 5, 10), &wd), ymd(2026, 5, 11)); // Sun -> Mon
}

#[test]
fn next_work_day_across_month_boundary() {
    let wd = weekdays_mon_fri();
    // 2026-05-29 is a Friday; next work day is Mon 2026-06-01.
    assert_eq!(next_work_day(ymd(2026, 5, 29), &wd), ymd(2026, 6, 1));
}

#[test]
fn next_work_day_across_year_boundary() {
    let wd = weekdays_mon_fri();
    // 2026-12-31 is a Thursday; next work day is Fri 2027-01-01.
    assert_eq!(next_work_day(ymd(2026, 12, 31), &wd), ymd(2027, 1, 1));
    // 2027-12-31 is a Friday; next work day is Mon 2028-01-03.
    assert_eq!(next_work_day(ymd(2027, 12, 31), &wd), ymd(2028, 1, 3));
}

#[test]
fn upcoming_work_days_returns_exact_count() {
    let wd = weekdays_mon_fri();
    let out = upcoming_work_days(ymd(2026, 5, 4), &wd, 30);
    assert_eq!(out.len(), 30);
}

#[test]
fn upcoming_work_days_all_in_work_days_and_strictly_increasing() {
    let wd = vec![Mon, Thu, Fri];
    let out = upcoming_work_days(ymd(2026, 5, 1), &wd, 50);
    assert_eq!(out.len(), 50);
    for d in &out {
        assert!(wd.contains(&d.weekday()), "{d:?} weekday not in work_days");
    }
    for win in out.windows(2) {
        assert!(win[0] < win[1], "dates not strictly increasing");
    }
}

#[test]
fn upcoming_work_days_first_equals_next_work_day() {
    let wd = weekdays_mon_fri();
    let from = ymd(2026, 5, 8); // Friday
    let upcoming = upcoming_work_days(from, &wd, 5);
    assert_eq!(upcoming[0], next_work_day(from, &wd));
}

#[test]
fn upcoming_work_days_with_single_weekday_yields_consecutive_mondays() {
    let wd = vec![Mon];
    let out = upcoming_work_days(ymd(2026, 5, 1), &wd, 5);
    // Mondays in May/June 2026: 4, 11, 18, 25, then June 1.
    assert_eq!(
        out,
        vec![
            ymd(2026, 5, 4),
            ymd(2026, 5, 11),
            ymd(2026, 5, 18),
            ymd(2026, 5, 25),
            ymd(2026, 6, 1),
        ]
    );
}

#[test]
fn weekdays_of_known_dates() {
    assert_eq!(ymd(2026, 5, 4).weekday(), Mon);
    assert_eq!(ymd(2026, 5, 10).weekday(), Sun);
    assert_eq!(ymd(2024, 2, 29).weekday(), Thu);
    assert_eq!(Sun.num_days_from_monday(), 6);
}

fn every_day() -> Vec<Weekday> {
    vec![Mon, Tue, Wed, Thu, Fri, Sat, Sun]
}

#[test]
fn work_day_after_stops_at_the_end_of_the_calendar() {
    let last = ymd(262142, 12, 31);
    assert_eq!(work_day_after(ymd(262142, 12, 30), &every_day()), Some(last));
    assert_eq!(work_day_after(last, &every_day()), None);
    assert_eq!(work_day_after(ymd(2026, 5, 8), &[]), None);
    assert_eq!(work_day_after(ymd(2026, 5, 8), &[Mon]), Some(ymd(2026, 5, 11)));
}

#[test]
fn next_work_day_needs_only_the_work_day_itself() {
    // One day before the calendar ends: the next work day is its last day.
    assert_eq!(next_work_day(ymd(262142, 12, 30), &every_day()), ymd(262142, 12, 31));
    assert_eq!(upcoming_work_days(ymd(262142, 12, 30), &every_day(), 1), vec![ymd(262142, 12, 31)]);
}

#[test]
fn migration_target_prefers_the_next_work_day() {
    assert_eq!(migration_target(ymd(2026, 5, 8), &weekdays_mon_fri()), ymd(2026, 5, 11));
    assert_eq!(migration_target(ymd(2026, 5, 8), &[]), ymd(2026, 5, 9));
    let last = ymd(262142, 12, 31);
    assert_eq!(migration_target(last, &weekdays_mon_fri()), last);
}

#[test]
fn reachable_upcoming_days_end_with_the_calendar() {
    let v = upcoming_work_days_reachable(ymd(262142, 12, 29), &every_day(), 5);
    assert_eq!(v, vec![ymd(262142, 12, 30), ymd(262142, 12, 31)]);
    let v = upcoming_work_days_reachable(ymd(2026, 5, 1), &[Mon], 5);
    assert_eq!(
        v,
        vec![ymd(2026, 5, 4), ymd(2026, 5, 11), ymd(2026, 5, 18), ymd(2026, 5, 25), ymd(2026, 6, 1)]
    );
    assert!(upcoming_work_days_reachable(ymd(2026, 5, 1), &[], 3).is_empty());
}

#[test]
fn picker_days_are_thirty_work_days_or_none_without_work_days() {
    let days = picker_days(ymd(2026, 5, 8), &[Sat, Sun]);
    assert_eq!(PICKER_DAYS, 30);
    assert_eq!(days.len(), 30);
    assert_eq!(days[0], ymd(2026, 5, 9));
    assert_eq!(days[1], ymd(2026, 5, 10));
    assert_eq!(days[2], ymd(2026, 5, 16));
    assert!(picker_days(ymd(2026, 5, 8), &[]).is_empty());
}
