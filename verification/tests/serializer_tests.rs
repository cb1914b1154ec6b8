use bulletd_core::date::Date;
use bulletd_core::model::{
    BacklogLog, Bullet, BulletStatus, DailyLog, MigrationFrom, MigrationRef, MigrationTarget,
    MigrationTo,
};
use bulletd_core::parser::{parse_backlog, parse_daily_log};
use bulletd_core::serializer::{
    escape_pipe, format_migration, format_notes, serialize_backlog, serialize_daily_log,
};

fn ymd(y: i32, m: u32, d: u32) -> Date {
    Date::from_ymd_opt(y, m, d).unwrap()
}

#[test]
fn serialize_empty_daily_log() {
    let log = DailyLog {
        date: ymd(2026, 4, 10),
        bullets: vec![],
    };
    let serialized = serialize_daily_log(&log);

    assert!(serialized.contains("# 2026-04-10"));
    assert!(serialized.contains("| Status | Bullet | Notes | Migration | ID |"));
    assert!(serialized.contains("|--------|--------|-------|-----------|-----|"));
    assert!(serialized.contains("⚠️ bulletd managed file"));

    // Should still round-trip
    let reparsed = parse_daily_log(&serialized, "2026-04-10.md").unwrap();
    assert_eq!(log, reparsed);
}

#[test]
fn serialize_backlog_heading() {
    let backlog = BacklogLog { bullets: vec![] };
    let serialized = serialize_backlog(&backlog);
    assert!(serialized.contains("# Backlog"));
}

#[test]
fn format_notes_empty() {
    assert_eq!(format_notes(&[]), "");
}

#[test]
fn format_notes_single() {
    assert_eq!(format_notes(&["One note".to_string()]), "One note");
}

#[test]
fn format_notes_multiple() {
    let notes = vec!["First".to_string(), "Second".to_string()];
    assert_eq!(format_notes(&notes), "First<br>Second");
}

#[test]
fn format_migration_none() {
    assert_eq!(format_migration(&None), "");
}

#[test]
fn format_migration_to_date() {
    let mig = Some(MigrationRef::To {
        target_date: MigrationTarget::Date(ymd(2026, 4, 6)),
        target_id: "d8f2a1b5".to_string(),
    });
    assert_eq!(
        format_migration(&mig),
        "[to 2026-04-06/d8f2a1b5](./2026-04-06.md)"
    );
}

#[test]
fn format_migration_to_backlog() {
    let mig = Some(MigrationRef::To {
        target_date: MigrationTarget::Backlog,
        target_id: "a3c7e9d1".to_string(),
    });
    assert_eq!(
        format_migration(&mig),
        "[to backlog/a3c7e9d1](./backlog.md)"
    );
}

#[test]
fn format_migration_from() {
    let mig = Some(MigrationRef::From {
        source_date: ymd(2026, 4, 5),
        source_id: "c5a1d9e7".to_string(),
    });
    assert_eq!(
        format_migration(&mig),
        "[from 2026-04-05/c5a1d9e7](./2026-04-05.md)"
    );
}

#[test]
fn round_trip_bullet_text_with_pipe() {
    let log = DailyLog {
        date: ymd(2026, 4, 10),
        bullets: vec![Bullet {
            id: "a1".to_string(),
            status: BulletStatus::Open,
            text: "Fix Foo | Bar".to_string(),
            notes: vec!["Note with | pipe".to_string()],
            migrated_to: None,
            migrated_from: None,
        }],
    };
    let serialized = serialize_daily_log(&log);
    let reparsed = parse_daily_log(&serialized, "2026-04-10.md").unwrap();
    assert_eq!(log, reparsed);
}

#[test]
fn escape_pipe_in_cell() {
    assert_eq!(escape_pipe("no pipes here"), "no pipes here");
    assert_eq!(escape_pipe("a | b"), "a \\| b");
    assert_eq!(escape_pipe("a | b | c"), "a \\| b \\| c");
}

fn full_log() -> DailyLog {
    DailyLog {
        date: ymd(2026, 4, 6),
        bullets: vec![
            Bullet {
                id: "b7".to_string(),
                status: BulletStatus::Open,
                text: "Fix flaky auth test".to_string(),
                notes: vec!["Relies on wall clock timing".to_string(), "Seen twice".to_string()],
                migrated_to: None,
                migrated_from: Some(MigrationFrom {
                    source_date: ymd(2026, 4, 5),
                    source_id: "c5".to_string(),
                }),
            },
            Bullet {
                id: "a9".to_string(),
                status: BulletStatus::Migrated,
                text: "Update SDK".to_string(),
                notes: vec![],
                migrated_to: Some(MigrationTo {
                    target_date: MigrationTarget::Date(ymd(2026, 4, 7)),
                    target_id: "m4".to_string(),
                }),
                migrated_from: Some(MigrationFrom {
                    source_date: ymd(2026, 4, 3),
                    source_id: "x1".to_string(),
                }),
            },
            Bullet {
                id: "c1".to_string(),
                status: BulletStatus::Backlogged,
                text: "Rate limits".to_string(),
                notes: vec![],
                migrated_to: Some(MigrationTo {
                    target_date: MigrationTarget::Backlog,
                    target_id: "k2".to_string(),
                }),
                migrated_from: None,
            },
            Bullet {
                id: "d4".to_string(),
                status: BulletStatus::Cancelled,
                text: "Old idea".to_string(),
                notes: vec![],
                migrated_to: None,
                migrated_from: None,
            },
            Bullet {
                id: "e5".to_string(),
                status: BulletStatus::Done,
                text: "Deploy".to_string(),
                notes: vec![],
                migrated_to: None,
                migrated_from: None,
            },
        ],
    }
}

#[test]
fn round_trip_daily_log_with_every_status_and_link() {
    let log = full_log();
    let serialized = serialize_daily_log(&log);
    let reparsed = parse_daily_log(&serialized, "2026-04-06.md").unwrap();
    assert_eq!(log, reparsed);
}

#[test]
fn round_trip_backlog() {
    let backlog = BacklogLog { bullets: full_log().bullets };
    let serialized = serialize_backlog(&backlog);
    let reparsed = parse_backlog(&serialized, "backlog.md").unwrap();
    assert_eq!(backlog, reparsed);
}

#[test]
fn serialized_row_layout() {
    let log = full_log();
    let serialized = serialize_daily_log(&log);
    assert!(serialized.contains(
        "| 📌 | Fix flaky auth test | Relies on wall clock timing<br>Seen twice | [from 2026-04-05/c5](./2026-04-05.md) | b7 |"
    ));
    assert!(serialized.contains(
        "| ➡️ | Update SDK |  | [from 2026-04-03/x1](./2026-04-03.md) [to 2026-04-07/m4](./2026-04-07.md) | a9 |"
    ));
    assert!(serialized.ends_with('\n'));
}

#[test]
fn round_trip_daily_log_with_signed_years() {
    let log = DailyLog {
        date: ymd(12345, 6, 7),
        bullets: vec![Bullet {
            id: "q3".to_string(),
            status: BulletStatus::Migrated,
            text: "Far future".to_string(),
            notes: vec![],
            migrated_to: Some(MigrationTo {
                target_date: MigrationTarget::Date(ymd(10000, 1, 1)),
                target_id: "r8".to_string(),
            }),
            migrated_from: Some(MigrationFrom {
                source_date: ymd(-44, 3, 15),
                source_id: "s2".to_string(),
            }),
        }],
    };
    let serialized = serialize_daily_log(&log);
    assert!(serialized.contains("# +12345-06-07"));
    assert!(serialized.contains("[from -0044-03-15/s2](./-0044-03-15.md)"));
    assert!(serialized.contains("[to +10000-01-01/r8](./+10000-01-01.md)"));
    let reparsed = parse_daily_log(&serialized, "+12345-06-07.md").unwrap();
    assert_eq!(log, reparsed);
}
