use bulletd_core::date::Date;
use bulletd_core::error::Error;
use bulletd_core::model::{BulletStatus, MigrationRef, MigrationTarget};
use bulletd_core::parser::{
    parse_backlog, parse_daily_log, parse_migration, parse_notes, split_on_br, split_row,
};

fn ymd(y: i32, m: u32, d: u32) -> Date {
    Date::from_ymd_opt(y, m, d).unwrap()
}

#[test]
fn parse_empty_table() {
    let content = r#"<!--
  bulletd managed file
-->

# 2026-04-07

| Status | Bullet | Notes | Migration | ID |
|--------|--------|-------|-----------|-----|
"#;
    let log = parse_daily_log(content, "2026-04-07.md").unwrap();
    assert_eq!(log.date, ymd(2026, 4, 7));
    assert!(log.bullets.is_empty());
}

#[test]
fn parse_new_day_no_table() {
    let content = r#"<!--
  bulletd managed file
-->

# 2026-04-08
"#;
    let log = parse_daily_log(content, "2026-04-08.md").unwrap();
    assert_eq!(log.date, ymd(2026, 4, 8));
    assert!(log.bullets.is_empty());
}

#[test]
fn parse_wrong_column_count() {
    let content = r#"<!---->

# 2026-04-07

| Status | Bullet | ID |
|--------|--------|----|
| 📌 | Some task | abc12345 |
"#;
    // 3 columns instead of 5 — should not parse as our table
    let log = parse_daily_log(content, "2026-04-07.md").unwrap();
    assert!(log.bullets.is_empty());
}

#[test]
fn parse_invalid_emoji() {
    let content = r#"<!---->

# 2026-04-07

| Status | Bullet | Notes | Migration | ID |
|--------|--------|-------|-----------|-----|
| 🦀 | Some task | | | abc12345 |
"#;
    let result = parse_daily_log(content, "2026-04-07.md");
    assert!(matches!(result, Err(Error::UnknownStatusEmoji { .. })));
}

#[test]
fn parse_invalid_id() {
    let content = r#"<!---->

# 2026-04-07

| Status | Bullet | Notes | Migration | ID |
|--------|--------|-------|-----------|-----|
| 📌 | Some task | | | BADID |
"#;
    let result = parse_daily_log(content, "2026-04-07.md");
    assert!(
        matches!(result, Err(Error::MalformedRow { ref detail, .. }) if detail.contains("invalid ID"))
    );
}

#[test]
fn parse_empty_id_column() {
    let content = r#"<!-- -->

# 2026-04-07

| Status | Bullet | Notes | Migration | ID |
|--------|--------|-------|-----------|-----|
| 📌 | Some task | | |  |
"#;
    let result = parse_daily_log(content, "2026-04-07.md");
    assert!(
        matches!(result, Err(Error::MalformedRow { ref detail, .. }) if detail.contains("empty ID"))
    );
}

#[test]
fn parse_notes_with_br_tags() {
    let notes = parse_notes("First line<br>Second line<br>Third line");
    assert_eq!(notes, vec!["First line", "Second line", "Third line"]);
}

#[test]
fn parse_notes_empty() {
    let notes = parse_notes("  ");
    assert!(notes.is_empty());
}

#[test]
fn parse_migration_to_date() {
    let result = parse_migration("[to 2026-04-06/d8f2a1b5](./2026-04-06.md)", 1).unwrap();
    match result {
        Some(MigrationRef::To {
            target_date,
            target_id,
        }) => {
            assert_eq!(target_date, MigrationTarget::Date(ymd(2026, 4, 6)));
            assert_eq!(target_id, "d8f2a1b5");
        }
        other => panic!("expected Some(To), got {other:?}"),
    }
}

#[test]
fn parse_migration_to_backlog() {
    let result = parse_migration("[to backlog/a3c7e9d1](./backlog.md)", 1).unwrap();
    match result {
        Some(MigrationRef::To {
            target_date,
            target_id,
        }) => {
            assert_eq!(target_date, MigrationTarget::Backlog);
            assert_eq!(target_id, "a3c7e9d1");
        }
        other => panic!("expected Some(To(Backlog)), got {other:?}"),
    }
}

#[test]
fn parse_migration_from() {
    let result = parse_migration("[from 2026-04-05/c5a1d9e7](./2026-04-05.md)", 1).unwrap();
    match result {
        Some(MigrationRef::From {
            source_date,
            source_id,
        }) => {
            assert_eq!(source_date, ymd(2026, 4, 5));
            assert_eq!(source_id, "c5a1d9e7");
        }
        other => panic!("expected Some(From), got {other:?}"),
    }
}

#[test]
fn parse_migration_empty() {
    let result = parse_migration("", 1).unwrap();
    assert!(result.is_none());
}

#[test]
fn parse_notes_with_br_variants() {
    // Self-closing <br/>
    let notes = split_on_br("First<br/>Second");
    assert_eq!(notes, vec!["First", "Second"]);

    // Self-closing with space <br />
    let notes = split_on_br("First<br />Second");
    assert_eq!(notes, vec!["First", "Second"]);

    // Mixed case
    let notes = split_on_br("First<Br>Second<BR/>Third");
    assert_eq!(notes, vec!["First", "Second", "Third"]);
}

#[test]
fn parse_unclosed_html_comment() {
    let content = "<!--\n  This comment is never closed\n# 2026-04-07\n";
    let result = parse_daily_log(content, "test.md");
    assert!(result.is_err());
}

#[test]
fn parse_single_line_html_comment() {
    let content = "<!-- short -->\n\n# 2026-04-07\n";
    let log = parse_daily_log(content, "test.md").unwrap();
    assert_eq!(log.date, ymd(2026, 4, 7));
}

#[test]
fn split_row_no_trailing_pipe() {
    // GFM allows rows without trailing pipe
    let cols = split_row("| ✅ | Some text | notes | | abc12345");
    assert_eq!(cols.len(), 5);
    assert_eq!(cols[0], "✅");
    assert_eq!(cols[4], "abc12345");
}

const DAY_WITH_BULLETS: &str = "<!--\n  header\n-->\n\n# 2026-04-06\n\n| Status | Bullet | Notes | Migration | ID |\n|--------|--------|-------|-----------|-----|\n| 📌 | Fix flaky auth test | Relies on wall clock timing | [from 2026-04-05/c5](./2026-04-05.md) | b7 |\n| ✅ | Deploy to staging | | | f4 |\n| ➡️ | Update SDK | Blocked on v2.1<br>Ping vendor | [to 2026-04-07/m4](./2026-04-07.md) | a9 |\n| 📥 | Rate limits | | [to backlog/k2](./backlog.md) | c1 |\n";

#[test]
fn parse_day_with_every_kind_of_row() {
    let log = parse_daily_log(DAY_WITH_BULLETS, "2026-04-06.md").unwrap();
    assert_eq!(log.date, ymd(2026, 4, 6));
    assert_eq!(log.bullets.len(), 4);

    let b = &log.bullets[0];
    assert_eq!(b.status, BulletStatus::Open);
    assert_eq!(b.text, "Fix flaky auth test");
    assert_eq!(b.notes, vec!["Relies on wall clock timing"]);
    let from = b.migrated_from.as_ref().unwrap();
    assert_eq!(from.source_date, ymd(2026, 4, 5));
    assert_eq!(from.source_id, "c5");
    assert!(b.migrated_to.is_none());

    assert_eq!(log.bullets[1].status, BulletStatus::Done);
    assert!(log.bullets[1].notes.is_empty());

    let m = &log.bullets[2];
    assert_eq!(m.status, BulletStatus::Migrated);
    assert_eq!(m.notes, vec!["Blocked on v2.1", "Ping vendor"]);
    let to = m.migrated_to.as_ref().unwrap();
    assert_eq!(to.target_date, MigrationTarget::Date(ymd(2026, 4, 7)));
    assert_eq!(to.target_id, "m4");

    let k = &log.bullets[3];
    assert_eq!(k.status, BulletStatus::Backlogged);
    assert_eq!(k.migrated_to.as_ref().unwrap().target_date, MigrationTarget::Backlog);
}

#[test]
fn parse_daily_log_rejects_backlog_file() {
    let content = "<!-- -->\n\n# Backlog\n";
    assert!(matches!(parse_daily_log(content, "backlog.md"), Err(Error::MalformedRow { .. })));
    let backlog = parse_backlog(content, "backlog.md").unwrap();
    assert!(backlog.bullets.is_empty());
}

#[test]
fn parse_backlog_rejects_daily_log_file() {
    assert!(matches!(
        parse_backlog(DAY_WITH_BULLETS, "2026-04-06.md"),
        Err(Error::MalformedRow { .. })
    ));
}

#[test]
fn parse_missing_heading() {
    let content = "<!-- -->\n\nno heading here\n";
    assert!(matches!(
        parse_daily_log(content, "x.md"),
        Err(Error::MissingDateHeading { .. })
    ));
}

#[test]
fn parse_invalid_heading_date() {
    let content = "<!-- -->\n\n# 2026-13-40\n";
    assert!(matches!(parse_daily_log(content, "x.md"), Err(Error::InvalidDate { .. })));
}

#[test]
fn parse_short_row_reports_missing_columns() {
    let content = "# 2026-04-07\n\n| Status | Bullet | Notes | Migration | ID |\n|---|---|---|---|---|\n| 📌 | only two |\n";
    match parse_daily_log(content, "x.md") {
        Err(Error::MissingColumns { line, expected, found }) => {
            assert_eq!(line, 5);
            assert_eq!(expected, 5);
            assert_eq!(found, 2);
        }
        other => panic!("expected MissingColumns, got {other:?}"),
    }
}

#[test]
fn parse_migration_without_slash() {
    assert!(matches!(
        parse_migration("[to 2026-04-06](./2026-04-06.md)", 3),
        Err(Error::MalformedRow { line: 3, .. })
    ));
}

#[test]
fn parse_migration_not_a_link() {
    assert!(matches!(
        parse_migration("to 2026-04-06/a1", 1),
        Err(Error::InvalidMigrationLink { .. })
    ));
}

#[test]
fn parse_migration_bad_date() {
    assert!(matches!(
        parse_migration("[to 2026-02-30/a1](./x.md)", 1),
        Err(Error::InvalidDate { .. })
    ));
}
