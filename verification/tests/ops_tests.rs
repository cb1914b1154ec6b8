use bulletd_core::date::Date;
use bulletd_core::error::{Error, UnmigrateOutcome};
use bulletd_core::model::{BacklogLog, BulletStatus, DailyLog, MigrationTarget};
use bulletd_core::ops::{default_migration_target, lookback_dates, Store};
use bulletd_core::parser::{parse_backlog, parse_daily_log};
use bulletd_core::serializer::{serialize_backlog, serialize_daily_log};
use std::collections::HashMap;

fn ymd(y: i32, m: u32, d: u32) -> Date {
    Date::from_ymd_opt(y, m, d).unwrap()
}

fn empty_log(date: Date) -> DailyLog {
    DailyLog { date, bullets: vec![] }
}

/// The log as it reads back from its file.
fn persisted(log: &DailyLog) -> DailyLog {
    parse_daily_log(&serialize_daily_log(log), "log.md").unwrap()
}

#[test]
fn add_task_to_empty_day() {
    let date = ymd(2026, 4, 10);
    let mut log = empty_log(date);

    let bullet = log.add_bullet("Fix the bug".to_string(), vec![]).unwrap();

    assert_eq!(bullet.status, BulletStatus::Open);
    assert_eq!(bullet.text, "Fix the bug");
    assert_eq!(bullet.id.len(), 2);

    // Verify persisted
    let log = persisted(&log);
    assert_eq!(log.bullets.len(), 1);
    assert_eq!(log.bullets[0].id, bullet.id);
}

#[test]
fn add_to_existing_day() {
    let date = ymd(2026, 4, 10);
    let mut log = empty_log(date);

    let b1 = log.add_bullet("First".to_string(), vec![]).unwrap();
    let b2 = log.add_bullet("Second".to_string(), vec![]).unwrap();

    let log = persisted(&log);
    assert_eq!(log.bullets.len(), 2);
    assert_eq!(log.bullets[0].id, b1.id);
    assert_eq!(log.bullets[1].id, b2.id);
    // IDs are different
    assert_ne!(b1.id, b2.id);
}

#[test]
fn add_preserves_existing_bullets() {
    let date = ymd(2026, 4, 10);
    let mut log = empty_log(date);

    let b1 = log.add_bullet("First".to_string(), vec![]).unwrap();
    log.add_bullet("Meeting".to_string(), vec![]).unwrap();

    let log = persisted(&log);
    assert_eq!(log.bullets[0].text, "First");
    assert_eq!(log.bullets[0].id, b1.id);
    assert_eq!(log.bullets[0].status, BulletStatus::Open);
}

#[test]
fn add_with_notes_keeps_them() {
    let mut log = empty_log(ymd(2026, 4, 10));
    let bullet = log
        .add_bullet("Important context".to_string(), vec!["Detail one".to_string()])
        .unwrap();
    assert_eq!(bullet.notes.len(), 1);
    assert_eq!(persisted(&log).bullets[0].notes, vec!["Detail one"]);
}

#[test]
fn add_to_a_full_day_fails() {
    let mut log = empty_log(ymd(2026, 4, 10));
    for _ in 0..260 {
        log.add_bullet("x".to_string(), vec![]).unwrap();
    }
    let ids: std::collections::HashSet<String> = log.bullets.iter().map(|b| b.id.clone()).collect();
    assert_eq!(ids.len(), 260);
    match log.add_bullet("one too many".to_string(), vec![]) {
        Err(Error::DuplicateId { path, .. }) => assert_eq!(path, "2026-04-10.md"),
        other => panic!("expected DuplicateId, got {other:?}"),
    }
    assert_eq!(log.bullets.len(), 260);
}

#[test]
fn update_bullet_text() {
    let date = ymd(2026, 4, 10);
    let mut log = empty_log(date);
    let bullet = log.add_bullet("Old text".to_string(), vec![]).unwrap();

    let updated = log
        .update_bullet(&bullet.id, Some("New text".to_string()), None)
        .unwrap();

    assert_eq!(updated.text, "New text");
    assert_eq!(updated.status, BulletStatus::Open); // unchanged
}

#[test]
fn update_bullet_notes() {
    let date = ymd(2026, 4, 10);
    let mut log = empty_log(date);
    let bullet = log.add_bullet("Task".to_string(), vec![]).unwrap();

    let updated = log
        .update_bullet(
            &bullet.id,
            None,
            Some(vec!["Note 1".to_string(), "Note 2".to_string()]),
        )
        .unwrap();

    assert_eq!(updated.notes.len(), 2);
    assert_eq!(updated.text, "Task"); // unchanged
}

#[test]
fn update_bullet_not_found() {
    let mut log = empty_log(ymd(2026, 4, 10));
    let result = log.update_bullet("d3", Some("New".to_string()), None);
    match result {
        Err(Error::BulletNotFound { location, id }) => {
            assert_eq!(location, "2026-04-10");
            assert_eq!(id, "d3");
        }
        other => panic!("expected BulletNotFound, got {other:?}"),
    }
}

#[test]
fn complete_task_success() {
    let date = ymd(2026, 4, 10);
    let mut log = empty_log(date);
    let bullet = log.add_bullet("Do thing".to_string(), vec![]).unwrap();

    let completed = log.complete_task(&bullet.id).unwrap();
    assert_eq!(completed.status, BulletStatus::Done);

    // Verify persisted
    let log = persisted(&log);
    assert_eq!(log.bullets[0].status, BulletStatus::Done);
}

#[test]
fn cancel_task_success() {
    let mut log = empty_log(ymd(2026, 4, 10));
    let bullet = log.add_bullet("Do thing".to_string(), vec![]).unwrap();

    let cancelled = log.cancel_task(&bullet.id).unwrap();
    assert_eq!(cancelled.status, BulletStatus::Cancelled);
}

#[test]
fn complete_already_done_fails() {
    let mut log = empty_log(ymd(2026, 4, 10));
    let bullet = log.add_bullet("Do thing".to_string(), vec![]).unwrap();

    log.complete_task(&bullet.id).unwrap();

    // Try to complete again
    let result = log.complete_task(&bullet.id);
    assert!(matches!(result, Err(Error::InvalidStatusTransition { .. })));
}

#[test]
fn cancel_already_cancelled_fails() {
    let mut log = empty_log(ymd(2026, 4, 10));
    let bullet = log.add_bullet("Do thing".to_string(), vec![]).unwrap();

    log.cancel_task(&bullet.id).unwrap();

    let result = log.cancel_task(&bullet.id);
    assert!(matches!(result, Err(Error::InvalidStatusTransition { .. })));
}

#[test]
fn reopen_after_done_and_not_twice() {
    let mut log = empty_log(ymd(2026, 4, 10));
    let bullet = log.add_bullet("Do thing".to_string(), vec![]).unwrap();
    log.complete_task(&bullet.id).unwrap();
    let reopened = log.reopen_bullet(&bullet.id).unwrap();
    assert_eq!(reopened.status, BulletStatus::Open);
    match log.reopen_bullet(&bullet.id) {
        Err(Error::InvalidStatusTransition { from, to }) => {
            assert_eq!(from, "open");
            assert_eq!(to, "open");
        }
        other => panic!("expected InvalidStatusTransition, got {other:?}"),
    }
}

// -- Migrate tests --

#[test]
fn migrate_task_to_next_day() {
    let date = ymd(2026, 4, 10);
    let target = ymd(2026, 4, 11);
    let mut source_log = empty_log(date);
    let mut target_log = empty_log(target);

    let bullet = source_log.add_bullet("Migrate me".to_string(), vec![]).unwrap();

    let (source, target_bullet) = source_log.migrate_task(&mut target_log, &bullet.id).unwrap();

    assert_eq!(source.status, BulletStatus::Migrated);
    let to = source.migrated_to.as_ref().unwrap();
    assert_eq!(to.target_date, MigrationTarget::Date(target));
    assert_eq!(to.target_id, target_bullet.id);

    assert_eq!(target_bullet.status, BulletStatus::Open);
    assert_eq!(target_bullet.text, "Migrate me");
    let from = target_bullet.migrated_from.as_ref().unwrap();
    assert_eq!(from.source_date, date);
    assert_eq!(from.source_id, bullet.id);

    // Verify persisted
    let target_log = persisted(&target_log);
    assert_eq!(target_log.bullets.len(), 1);
    assert_eq!(target_log.bullets[0].id, target_bullet.id);
}

#[test]
fn migrate_task_defaults_to_tomorrow() {
    let date = ymd(2026, 4, 10);
    let tomorrow = ymd(2026, 4, 11);
    assert_eq!(default_migration_target(date), tomorrow);
    assert_eq!(default_migration_target(ymd(2026, 12, 31)), ymd(2027, 1, 1));

    let mut log = empty_log(date);
    let mut target_log = empty_log(default_migration_target(date));
    let bullet = log.add_bullet("Task".to_string(), vec![]).unwrap();
    let (source, _) = log.migrate_task(&mut target_log, &bullet.id).unwrap();
    assert_eq!(
        source.migrated_to.as_ref().unwrap().target_date,
        MigrationTarget::Date(tomorrow)
    );
}

#[test]
fn migrate_to_existing_day_preserves_bullets() {
    let date = ymd(2026, 4, 10);
    let target = ymd(2026, 4, 11);
    let mut target_log = empty_log(target);
    target_log.add_bullet("Existing task".to_string(), vec![]).unwrap();

    let mut log = empty_log(date);
    let bullet = log.add_bullet("Migrate me".to_string(), vec![]).unwrap();

    log.migrate_task(&mut target_log, &bullet.id).unwrap();

    let target_log = persisted(&target_log);
    assert_eq!(target_log.bullets.len(), 2);
    assert_eq!(target_log.bullets[0].text, "Existing task");
    assert_eq!(target_log.bullets[1].text, "Migrate me");
    assert_ne!(target_log.bullets[0].id, target_log.bullets[1].id);
}

#[test]
fn migrate_done_task_fails() {
    let date = ymd(2026, 4, 10);
    let mut log = empty_log(date);
    let mut target_log = empty_log(ymd(2026, 4, 11));
    let bullet = log.add_bullet("Done task".to_string(), vec![]).unwrap();
    log.complete_task(&bullet.id).unwrap();

    let result = log.migrate_task(&mut target_log, &bullet.id);
    match result {
        Err(Error::InvalidStatusTransition { from, to }) => {
            assert_eq!(from, "done");
            assert_eq!(to, "migrated");
        }
        other => panic!("expected InvalidStatusTransition, got {other:?}"),
    }
    assert!(target_log.bullets.is_empty());
}

// -- Unmigrate tests --

#[test]
fn unmigrate_untouched_target_deletes_it() {
    let date = ymd(2026, 4, 10);
    let target = ymd(2026, 4, 11);
    let mut source_log = empty_log(date);
    let mut target_log = empty_log(target);

    let bullet = source_log.add_bullet("Task".to_string(), vec![]).unwrap();
    source_log.migrate_task(&mut target_log, &bullet.id).unwrap();

    let (d, _) = source_log.unmigrate_target(&bullet.id).unwrap();
    assert_eq!(d, target);
    let outcome = source_log.unmigrate_task(&mut target_log, &bullet.id).unwrap();
    assert_eq!(outcome, UnmigrateOutcome::TargetDeleted);

    // Source is back to open
    let source_log = persisted(&source_log);
    assert_eq!(source_log.bullets[0].status, BulletStatus::Open);
    assert!(source_log.bullets[0].migrated_to.is_none());
    assert!(source_log.bullets[0].migrated_from.is_none());

    // Target is deleted
    assert!(persisted(&target_log).bullets.is_empty());
}

#[test]
fn unmigrate_modified_target_cancels_it() {
    let date = ymd(2026, 4, 10);
    let target = ymd(2026, 4, 11);
    let mut source_log = empty_log(date);
    let mut target_log = empty_log(target);

    let bullet = source_log.add_bullet("Task".to_string(), vec![]).unwrap();
    let (_, target_bullet) = source_log.migrate_task(&mut target_log, &bullet.id).unwrap();

    // Modify the target bullet by adding notes
    target_log
        .update_bullet(
            &target_bullet.id,
            None,
            Some(vec!["Added context".to_string()]),
        )
        .unwrap();

    let outcome = source_log.unmigrate_task(&mut target_log, &bullet.id).unwrap();
    assert_eq!(outcome, UnmigrateOutcome::TargetCancelled);

    // Target is cancelled, not deleted
    let target_log = persisted(&target_log);
    assert_eq!(target_log.bullets.len(), 1);
    assert_eq!(target_log.bullets[0].status, BulletStatus::Cancelled);
}

#[test]
fn unmigrate_target_with_edited_text_is_cancelled() {
    let mut source_log = empty_log(ymd(2026, 4, 10));
    let mut target_log = empty_log(ymd(2026, 4, 11));
    let bullet = source_log.add_bullet("Task".to_string(), vec![]).unwrap();
    let (_, copy) = source_log.migrate_task(&mut target_log, &bullet.id).unwrap();
    target_log.update_bullet(&copy.id, Some("Task, reworded".to_string()), None).unwrap();
    let outcome = source_log.unmigrate_task(&mut target_log, &bullet.id).unwrap();
    assert_eq!(outcome, UnmigrateOutcome::TargetCancelled);
    assert_eq!(target_log.bullets[0].status, BulletStatus::Cancelled);
    assert_eq!(target_log.bullets[0].text, "Task, reworded");
}

#[test]
fn unmigrate_target_with_changed_status_is_cancelled() {
    let mut source_log = empty_log(ymd(2026, 4, 10));
    let mut target_log = empty_log(ymd(2026, 4, 11));
    let bullet = source_log.add_bullet("Task".to_string(), vec![]).unwrap();
    let (_, copy) = source_log.migrate_task(&mut target_log, &bullet.id).unwrap();
    target_log.complete_task(&copy.id).unwrap();
    let outcome = source_log.unmigrate_task(&mut target_log, &bullet.id).unwrap();
    assert_eq!(outcome, UnmigrateOutcome::TargetCancelled);
    assert_eq!(target_log.bullets.len(), 1);
    assert_eq!(target_log.bullets[0].status, BulletStatus::Cancelled);
    assert_eq!(source_log.bullets[0].status, BulletStatus::Open);
}

#[test]
fn migrate_within_one_day_keeps_both_bullets() {
    let mut log = empty_log(ymd(2026, 4, 10));
    let bullet = log.add_bullet("Task".to_string(), vec![]).unwrap();
    let (sb, nb) = log.migrate_within(&bullet.id).unwrap();
    let log = persisted(&log);
    assert_eq!(log.bullets.len(), 2);
    assert_eq!(log.bullets[0].status, BulletStatus::Migrated);
    assert_eq!(log.bullets[0], sb);
    assert_eq!(log.bullets[1], nb);
    assert_ne!(nb.id, bullet.id);
    assert_eq!(nb.status, BulletStatus::Open);
    let to = sb.migrated_to.unwrap();
    assert_eq!(to.target_date, MigrationTarget::Date(ymd(2026, 4, 10)));
    assert_eq!(to.target_id, nb.id);
    assert_eq!(nb.migrated_from.unwrap().source_id, bullet.id);
}

#[test]
fn unmigrate_within_one_day_undoes_it() {
    let mut log = empty_log(ymd(2026, 4, 10));
    let bullet = log.add_bullet("Task".to_string(), vec![]).unwrap();
    let before = log.clone();
    log.migrate_within(&bullet.id).unwrap();
    let outcome = log.unmigrate_within(&bullet.id).unwrap();
    assert_eq!(outcome, UnmigrateOutcome::TargetDeleted);
    assert_eq!(log, before);
}

#[test]
fn unmigrate_within_one_day_cancels_a_modified_copy() {
    let mut log = empty_log(ymd(2026, 4, 10));
    let bullet = log.add_bullet("Task".to_string(), vec![]).unwrap();
    let (_, copy) = log.migrate_within(&bullet.id).unwrap();
    log.append_note(&copy.id, "started".to_string()).unwrap();
    let outcome = log.unmigrate_within(&bullet.id).unwrap();
    assert_eq!(outcome, UnmigrateOutcome::TargetCancelled);
    let log = persisted(&log);
    assert_eq!(log.bullets.len(), 2);
    assert_eq!(log.bullets[0].status, BulletStatus::Open);
    assert!(log.bullets[0].migrated_to.is_none());
    assert_eq!(log.bullets[1].status, BulletStatus::Cancelled);
}

#[test]
fn migrate_within_refuses_a_closed_bullet() {
    let mut log = empty_log(ymd(2026, 4, 10));
    let bullet = log.add_bullet("Task".to_string(), vec![]).unwrap();
    log.complete_task(&bullet.id).unwrap();
    let before = log.clone();
    assert!(matches!(log.migrate_within(&bullet.id), Err(Error::InvalidStatusTransition { .. })));
    assert_eq!(log, before);
}

#[test]
fn unmigrate_blocked_by_chain() {
    let d1 = ymd(2026, 4, 10);
    let d2 = ymd(2026, 4, 11);
    let d3 = ymd(2026, 4, 12);
    let mut l1 = empty_log(d1);
    let mut l2 = empty_log(d2);
    let mut l3 = empty_log(d3);

    let bullet = l1.add_bullet("Task".to_string(), vec![]).unwrap();

    let (_, target1) = l1.migrate_task(&mut l2, &bullet.id).unwrap();
    l2.migrate_task(&mut l3, &target1.id).unwrap();

    // Can't unmigrate d1 because d2's target has been migrated onward
    let result = l1.unmigrate_task(&mut l2, &bullet.id);
    assert!(matches!(result, Err(Error::UnmigrateBlockedByChain { .. })));
}

#[test]
fn unmigrate_open_bullet_fails() {
    let mut log = empty_log(ymd(2026, 4, 10));
    let mut other = empty_log(ymd(2026, 4, 11));
    let bullet = log.add_bullet("Task".to_string(), vec![]).unwrap();
    match log.unmigrate_task(&mut other, &bullet.id) {
        Err(Error::InvalidStatusTransition { from, to }) => {
            assert_eq!(from, "open");
            assert_eq!(to, "open (unmigrate)");
        }
        other => panic!("expected InvalidStatusTransition, got {other:?}"),
    }
}

// -- Backlog tests --

#[test]
fn backlog_task_success() {
    let date = ymd(2026, 4, 10);
    let mut log = empty_log(date);
    let mut backlog = BacklogLog { bullets: vec![] };

    let bullet = log.add_bullet("Low priority".to_string(), vec![]).unwrap();

    let (source, backlog_bullet) = log.backlog_task(&mut backlog, &bullet.id).unwrap();

    assert_eq!(source.status, BulletStatus::Backlogged);
    assert_eq!(
        source.migrated_to.as_ref().unwrap().target_date,
        MigrationTarget::Backlog
    );

    assert_eq!(backlog_bullet.status, BulletStatus::Open);
    assert_eq!(backlog_bullet.text, "Low priority");
    assert_eq!(backlog_bullet.migrated_from.as_ref().unwrap().source_date, date);

    // Verify backlog persisted
    let backlog = parse_backlog(&serialize_backlog(&backlog), "backlog.md").unwrap();
    assert_eq!(backlog.bullets.len(), 1);
}

// -- Query tests --

#[test]
fn daily_review_returns_open_tasks() {
    let mut log = empty_log(ymd(2026, 4, 10));

    log.add_bullet("Open 1".to_string(), vec![]).unwrap();
    let b2 = log.add_bullet("Done".to_string(), vec![]).unwrap();
    log.complete_task(&b2.id).unwrap();
    log.add_bullet("Open 2".to_string(), vec![]).unwrap();

    let open = log.daily_review();
    assert_eq!(open.len(), 2);
    assert_eq!(open[0].text, "Open 1");
    assert_eq!(open[1].text, "Open 2");
}

#[test]
fn list_bullets_with_status_filter() {
    let mut log = empty_log(ymd(2026, 4, 10));
    log.add_bullet("Task".to_string(), vec![]).unwrap();
    let e = log.add_bullet("Event".to_string(), vec![]).unwrap();
    log.cancel_task(&e.id).unwrap();
    log.add_bullet("Note".to_string(), vec![]).unwrap();

    let cancelled = log.list_bullets(Some(BulletStatus::Cancelled));
    assert_eq!(cancelled.len(), 1);
    assert_eq!(cancelled[0].text, "Event");
    assert_eq!(log.list_bullets(None).len(), 3);
}

#[test]
fn migration_history_three_day_chain() {
    let d1 = ymd(2026, 4, 10);
    let d2 = ymd(2026, 4, 11);
    let d3 = ymd(2026, 4, 12);
    let mut l1 = empty_log(d1);
    let mut l2 = empty_log(d2);
    let mut l3 = empty_log(d3);

    let bullet = l1.add_bullet("Persistent task".to_string(), vec![]).unwrap();
    let (_, t1) = l1.migrate_task(&mut l2, &bullet.id).unwrap();
    let (_, t2) = l2.migrate_task(&mut l3, &t1.id).unwrap();
    l3.complete_task(&t2.id).unwrap();

    let mut logs: HashMap<Date, DailyLog> = HashMap::new();
    logs.insert(d1, l1);
    logs.insert(d2, l2);
    logs.insert(d3, l3);

    // Trace from the middle: walk back to the origin, then forward.
    let (mut date, mut id) = (d2, t1.id.clone());
    while let Some((d, i)) = logs[&date].origin_of(&id) {
        date = d;
        id = i;
    }
    let mut history = Vec::new();
    while let Some((entry, next)) = logs[&date].chain_step(&id) {
        history.push(entry);
        match next {
            Some((d, i)) => {
                date = d;
                id = i;
            }
            None => break,
        }
    }

    assert_eq!(history.len(), 3);
    assert_eq!(history[0].0, d1);
    assert_eq!(history[0].2, BulletStatus::Migrated);
    assert_eq!(history[1].0, d2);
    assert_eq!(history[1].2, BulletStatus::Migrated);
    assert_eq!(history[2].0, d3);
    assert_eq!(history[2].2, BulletStatus::Done);
    assert_eq!(history[2].3, "Persistent task");
}

#[test]
fn grouped_view_skips_empty_groups() {
    let mut log = empty_log(ymd(2026, 4, 10));
    let a = log.add_bullet("a".to_string(), vec![]).unwrap();
    log.add_bullet("b".to_string(), vec![]).unwrap();
    log.complete_task(&a.id).unwrap();
    let groups = log.list_bullets_grouped();
    assert_eq!(groups.len(), 2);
    assert_eq!(groups[0].0, BulletStatus::Open);
    assert_eq!(groups[0].1.len(), 1);
    assert_eq!(groups[1].0, BulletStatus::Done);
    assert_eq!(groups[1].1[0].text, "a");
}

#[test]
fn notes_operations() {
    let mut log = empty_log(ymd(2026, 4, 10));
    let b = log.add_bullet("task".to_string(), vec!["one".to_string()]).unwrap();
    let b2 = log.append_note(&b.id, "two".to_string()).unwrap();
    assert_eq!(b2.notes, vec!["one", "two"]);
    let b3 = log.update_notes(&b.id, vec!["only".to_string()]).unwrap();
    assert_eq!(b3.notes, vec!["only"]);
    let b4 = log.clear_notes(&b.id).unwrap();
    assert!(b4.notes.is_empty());
    let missing = if b.id == "z9" { "a0" } else { "z9" };
    assert!(matches!(log.clear_notes(missing), Err(Error::BulletNotFound { .. })));
}

#[test]
fn delete_and_move() {
    let mut log = empty_log(ymd(2026, 4, 10));
    let a = log.add_bullet("a".to_string(), vec![]).unwrap();
    let b = log.add_bullet("b".to_string(), vec![]).unwrap();
    let c = log.add_bullet("c".to_string(), vec![]).unwrap();

    log.move_bullet_to(&c.id, 0).unwrap();
    let texts: Vec<&str> = log.bullets.iter().map(|x| x.text.as_str()).collect();
    assert_eq!(texts, vec!["c", "a", "b"]);

    log.move_bullet_to(&c.id, usize::MAX).unwrap();
    let texts: Vec<&str> = log.bullets.iter().map(|x| x.text.as_str()).collect();
    assert_eq!(texts, vec!["a", "b", "c"]);

    log.move_bullet(&a.id, 1).unwrap();
    let texts: Vec<&str> = log.bullets.iter().map(|x| x.text.as_str()).collect();
    assert_eq!(texts, vec!["b", "a", "c"]);

    log.move_bullet(&a.id, -5).unwrap();
    let texts: Vec<&str> = log.bullets.iter().map(|x| x.text.as_str()).collect();
    assert_eq!(texts, vec!["a", "b", "c"]);

    log.delete_bullet(&b.id).unwrap();
    let texts: Vec<&str> = log.bullets.iter().map(|x| x.text.as_str()).collect();
    assert_eq!(texts, vec!["a", "c"]);
    assert!(matches!(log.delete_bullet(&b.id), Err(Error::BulletNotFound { .. })));
    assert!(matches!(log.move_bullet(&b.id, 1), Err(Error::BulletNotFound { .. })));
}

#[test]
fn lookback_dates_count_back_from_today() {
    let dates = lookback_dates(ymd(2026, 3, 2), 4);
    assert_eq!(
        dates,
        vec![ymd(2026, 3, 2), ymd(2026, 3, 1), ymd(2026, 2, 28), ymd(2026, 2, 27)]
    );
    assert!(lookback_dates(ymd(2026, 3, 2), 0).is_empty());
}

#[test]
fn store_paths() {
    let store = Store::new("/tmp/logs".to_string());
    assert_eq!(store.daily_log_path(ymd(2026, 4, 10)), "/tmp/logs/2026-04-10.md");
    assert_eq!(store.backlog_path(), "/tmp/logs/backlog.md");
    let store = Store::new("/tmp/logs/".to_string());
    assert_eq!(store.backlog_path(), "/tmp/logs/backlog.md");
    assert_eq!(store.data_dir(), "/tmp/logs/");
}
