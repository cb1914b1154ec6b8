use bulletd_core::date::Date;
use bulletd_core::mcp::{batch_target_status, parse_bullet_status, parse_date_arg, parse_position};
use bulletd_core::model::BulletStatus;

#[test]
fn status_filters() {
    assert_eq!(parse_bullet_status("open"), Some(BulletStatus::Open));
    assert_eq!(parse_bullet_status("done"), Some(BulletStatus::Done));
    assert_eq!(parse_bullet_status("migrated"), Some(BulletStatus::Migrated));
    assert_eq!(parse_bullet_status("cancelled"), Some(BulletStatus::Cancelled));
    assert_eq!(parse_bullet_status("backlogged"), Some(BulletStatus::Backlogged));
    assert_eq!(parse_bullet_status("Open"), None);
    assert_eq!(parse_bullet_status(""), None);
}

#[test]
fn batch_statuses() {
    assert_eq!(batch_target_status("done"), Some(BulletStatus::Done));
    assert_eq!(batch_target_status("open"), Some(BulletStatus::Open));
    assert_eq!(batch_target_status("cancelled"), Some(BulletStatus::Cancelled));
    assert_eq!(batch_target_status("migrated"), None);
}

#[test]
fn date_arguments() {
    assert_eq!(parse_date_arg("2026-04-10"), Ok(Date::from_ymd_opt(2026, 4, 10).unwrap()));
    assert_eq!(parse_date_arg("2026-02-30"), Err("invalid date: 2026-02-30".to_string()));
    assert_eq!(parse_date_arg("tomorrow"), Err("invalid date: tomorrow".to_string()));
}

#[test]
fn positions() {
    assert_eq!(parse_position("top"), Some(0));
    assert_eq!(parse_position("bottom"), Some(usize::MAX));
    assert_eq!(parse_position("3"), Some(3));
    assert_eq!(parse_position("+12"), Some(12));
    assert_eq!(parse_position("-1"), None);
    assert_eq!(parse_position("+"), None);
    assert_eq!(parse_position(""), None);
    assert_eq!(parse_position("1x"), None);
    assert_eq!(parse_position("99999999999999999999999999"), None);
}
