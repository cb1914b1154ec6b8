use bulletd_core::date::Date;
use bulletd_core::model::{
    Bullet, BulletStatus, DailyLog, MigrationFrom, MigrationTarget, MigrationTo,
};
use bulletd_core::parser::parse_daily_log;
use bulletd_core::serializer::serialize_daily_log;

fn ymd(y: i32, m: u32, d: u32) -> Date {
    Date::from_ymd_opt(y, m, d).unwrap()
}

fn sample() -> DailyLog {
    let mut log = DailyLog { date: ymd(2026, 4, 10), bullets: vec![] };
    log.add_bullet("a".to_string(), vec!["note a".to_string()]).unwrap();
    log.add_bullet("b | pipe".to_string(), vec![]).unwrap();
    log.add_bullet("c".to_string(), vec!["x".to_string(), "y".to_string()]).unwrap();
    log
}

#[test]
fn reopen_undoes_complete() {
    let before = sample();
    let mut log = before.clone();
    let id = log.bullets[1].id.clone();
    log.complete_task(&id).unwrap();
    assert_ne!(log, before);
    log.reopen_bullet(&id).unwrap();
    assert_eq!(log, before);
}

#[test]
fn reopen_undoes_cancel() {
    let before = sample();
    let mut log = before.clone();
    let id = log.bullets[2].id.clone();
    log.cancel_task(&id).unwrap();
    log.reopen_bullet(&id).unwrap();
    assert_eq!(log, before);
}

#[test]
fn unmigrate_undoes_migrate() {
    let source_before = sample();
    let mut target_before = DailyLog { date: ymd(2026, 4, 11), bullets: vec![] };
    target_before.add_bullet("already there".to_string(), vec![]).unwrap();
    let mut source = source_before.clone();
    let mut target = target_before.clone();
    let id = source.bullets[0].id.clone();
    source.migrate_task(&mut target, &id).unwrap();
    assert_eq!(target.bullets.len(), 2);
    source.unmigrate_task(&mut target, &id).unwrap();
    assert_eq!(source, source_before);
    assert_eq!(target, target_before);
}

#[test]
fn moving_keeps_the_same_bullets() {
    let before = sample();
    let mut log = before.clone();
    let id = log.bullets[0].id.clone();
    log.move_bullet_to(&id, 2).unwrap();
    let mut a: Vec<String> = log.bullets.iter().map(|b| b.id.clone()).collect();
    let mut b: Vec<String> = before.bullets.iter().map(|b| b.id.clone()).collect();
    assert_ne!(a, b);
    a.sort();
    b.sort();
    assert_eq!(a, b);
}

#[test]
fn groups_partition_the_bullets() {
    let mut log = sample();
    let id = log.bullets[1].id.clone();
    log.complete_task(&id).unwrap();
    let groups = log.list_bullets_grouped();
    let total: usize = groups.iter().map(|g| g.1.len()).sum();
    assert_eq!(total, log.bullets.len());
    for (status, bullets) in &groups {
        assert!(!bullets.is_empty());
        assert!(bullets.iter().all(|b| b.status == *status));
    }
    assert_eq!(groups[1].0, BulletStatus::Done);
}

#[test]
fn written_log_reads_back() {
    let log = sample();
    let text = serialize_daily_log(&log);
    assert_eq!(parse_daily_log(&text, "2026-04-10.md").unwrap(), log);
}

#[test]
fn ids_stay_unique() {
    let mut log = sample();
    for _ in 0..100 {
        log.add_bullet("more".to_string(), vec![]).unwrap();
    }
    let ids: std::collections::HashSet<String> = log.bullets.iter().map(|b| b.id.clone()).collect();
    assert_eq!(ids.len(), log.bullets.len());
}

#[test]
fn review_ends_with_no_open_task() {
    let mut log = sample();
    let mut next = DailyLog { date: ymd(2026, 4, 13), bullets: vec![] };
    let open: Vec<String> = log.daily_review().into_iter().map(|b| b.id).collect();
    assert_eq!(open.len(), 3);
    log.complete_task(&open[0]).unwrap();
    assert_eq!(log.daily_review().len(), 2);
    log.cancel_task(&open[1]).unwrap();
    assert_eq!(log.daily_review().len(), 1);
    log.migrate_task(&mut next, &open[2]).unwrap();
    assert!(log.daily_review().is_empty());
    assert_eq!(next.daily_review().len(), 1);
    assert_eq!(log.bullets[2].status, BulletStatus::Migrated);
}

fn chain_bullet(id: &str, from: Option<(Date, &str)>, to: Option<(Date, &str)>) -> Bullet {
    Bullet {
        id: id.to_string(),
        status: if to.is_some() { BulletStatus::Migrated } else { BulletStatus::Open },
        text: "carry me".to_string(),
        notes: vec![],
        migrated_to: to.map(|(d, i)| MigrationTo {
            target_date: MigrationTarget::Date(d),
            target_id: i.to_string(),
        }),
        migrated_from: from.map(|(d, i)| MigrationFrom { source_date: d, source_id: i.to_string() }),
    }
}

fn chain_journal() -> Vec<DailyLog> {
    let (d1, d2, d3) = (ymd(2026, 4, 6), ymd(2026, 4, 7), ymd(2026, 4, 8));
    vec![
        DailyLog { date: d1, bullets: vec![chain_bullet("a1", None, Some((d2, "b2")))] },
        DailyLog { date: d2, bullets: vec![chain_bullet("b2", Some((d1, "a1")), Some((d3, "c3")))] },
        DailyLog { date: d3, bullets: vec![chain_bullet("c3", Some((d2, "b2")), None)] },
    ]
}

/// Steps back through `origin_of` to the start of the chain: the origin and
/// the number of steps.
fn walk_back(journal: &[DailyLog], date: Date, id: &str) -> ((Date, String), usize) {
    let (mut d, mut i, mut n) = (date, id.to_string(), 0);
    while let Some((pd, pi)) = journal.iter().find(|l| l.date == d).unwrap().origin_of(&i) {
        d = pd;
        i = pi;
        n += 1;
    }
    ((d, i), n)
}

#[test]
fn migration_count_is_the_steps_back_to_the_origin() {
    let journal = chain_journal();
    let origin = (ymd(2026, 4, 6), "a1".to_string());
    assert_eq!(walk_back(&journal, ymd(2026, 4, 6), "a1"), (origin.clone(), 0));
    assert_eq!(walk_back(&journal, ymd(2026, 4, 7), "b2"), (origin.clone(), 1));
    assert_eq!(walk_back(&journal, ymd(2026, 4, 8), "c3"), (origin, 2));
}
