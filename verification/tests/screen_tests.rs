use bulletd_core::date::{Date, Weekday};
use bulletd_core::layout::{
    history_rows, list_rows, scroll_offset, task_rows, HistoryRow, ListRow, TaskRow,
};
use bulletd_core::model::{Bullet, BulletStatus, MigrationFrom, MigrationTarget, MigrationTo};
use bulletd_core::screen::{
    form_effect, move_down, move_up, Effect, Mode, Notice, Resolution, Screen, UiKey,
};
use bulletd_core::tui::{FormMode, FormResult};

fn ymd(y: i32, m: u32, d: u32) -> Date {
    Date::from_ymd_opt(y, m, d).unwrap()
}

fn bullet(id: &str, status: BulletStatus, notes: &[&str]) -> Bullet {
    Bullet {
        id: id.to_string(),
        status,
        text: format!("task {id}"),
        notes: notes.iter().map(|n| n.to_string()).collect(),
        migrated_to: None,
        migrated_from: None,
    }
}

fn weekdays() -> Vec<Weekday> {
    vec![Weekday::Mon, Weekday::Tue, Weekday::Wed, Weekday::Thu, Weekday::Fri]
}

fn screen_with(bullets: Vec<Bullet>) -> Screen {
    let mut s = Screen::new(ymd(2026, 5, 11));
    s.loaded(Ok(bullets), None, false);
    s
}

fn three() -> Vec<Bullet> {
    vec![
        bullet("a1", BulletStatus::Done, &[]),
        bullet("b2", BulletStatus::Open, &["first", "second"]),
        bullet("c3", BulletStatus::Open, &[]),
    ]
}

#[test]
fn new_screen_is_empty_daily_log() {
    let s = Screen::new(ymd(2026, 5, 11));
    assert_eq!(s.mode, Mode::DailyLog);
    assert_eq!(s.current_date, ymd(2026, 5, 11));
    assert!(s.bullets.is_empty());
    assert_eq!(s.selected, 0);
    assert_eq!(s.status, None);
}

#[test]
fn loaded_keeps_selection_on_a_bullet() {
    let mut s = screen_with(three());
    s.selected = 2;
    s.loaded(Ok(vec![bullet("a1", BulletStatus::Open, &[])]), None, false);
    assert_eq!(s.selected, 0);
    assert_eq!(s.status, None);
}

#[test]
fn loaded_failure_empties_and_shows_error() {
    let mut s = screen_with(three());
    s.loaded(Err("disk".to_string()), None, false);
    assert!(s.bullets.is_empty());
    assert_eq!(s.status, Some(Notice::Error("disk".to_string())));
}

#[test]
fn loaded_can_select_last() {
    let mut s = screen_with(three());
    s.loaded(Ok(three()), None, true);
    assert_eq!(s.selected, 2);
}

#[test]
fn flat_navigation_stops_at_the_ends() {
    let mut s = screen_with(three());
    assert_eq!(s.handle_key(UiKey::Char('k')), Effect::Nothing);
    assert_eq!(s.selected, 0);
    s.handle_key(UiKey::Char('j'));
    s.handle_key(UiKey::Down);
    assert_eq!(s.selected, 2);
    s.handle_key(UiKey::Char('j'));
    assert_eq!(s.selected, 2);
    s.handle_key(UiKey::Up);
    assert_eq!(s.selected, 1);
}

#[test]
fn grouped_navigation_follows_group_order() {
    let bs = three();
    // Grouped order: open b2 (1), open c3 (2), then done a1 (0).
    assert_eq!(move_down(&bs, 1, true), 2);
    assert_eq!(move_down(&bs, 2, true), 0);
    assert_eq!(move_down(&bs, 0, true), 0);
    assert_eq!(move_up(&bs, 0, true), 2);
    assert_eq!(move_up(&bs, 1, true), 1);
}

#[test]
fn q_quits() {
    let mut s = screen_with(three());
    s.handle_key(UiKey::Char('q'));
    assert!(s.should_quit);
}

#[test]
fn help_overlay_swallows_keys_until_closed() {
    let mut s = screen_with(three());
    s.handle_key(UiKey::Char('?'));
    assert!(s.show_help);
    assert_eq!(s.handle_key(UiKey::Char('d')), Effect::Nothing);
    assert!(s.show_help);
    s.handle_key(UiKey::Esc);
    assert!(!s.show_help);
}

#[test]
fn status_keys_ask_for_the_selected_bullet() {
    let mut s = screen_with(three());
    s.handle_key(UiKey::Char('j'));
    assert_eq!(s.handle_key(UiKey::Char('d')), Effect::Complete { id: "b2".to_string() });
    assert_eq!(s.handle_key(UiKey::Char('x')), Effect::Cancel { id: "b2".to_string() });
    assert_eq!(s.handle_key(UiKey::Char('o')), Effect::Reopen { id: "b2".to_string() });
    assert_eq!(s.handle_key(UiKey::Delete), Effect::Delete { id: "b2".to_string() });
    assert_eq!(s.handle_key(UiKey::Char('m')), Effect::MigrateNext { id: "b2".to_string() });
    assert_eq!(s.handle_key(UiKey::Char('M')), Effect::OpenPicker { id: "b2".to_string() });
    assert_eq!(s.handle_key(UiKey::Char('u')), Effect::Unmigrate { id: "b2".to_string() });
    assert_eq!(s.handle_key(UiKey::Char('e')), Effect::OpenEditForm { index: 1 });
    assert_eq!(s.handle_key(UiKey::Char('a')), Effect::OpenAddForm);
}

#[test]
fn status_keys_do_nothing_on_an_empty_day() {
    let mut s = screen_with(vec![]);
    assert_eq!(s.handle_key(UiKey::Char('d')), Effect::Nothing);
    assert_eq!(s.handle_key(UiKey::Char('e')), Effect::Nothing);
    assert_eq!(s.handle_key(UiKey::Enter), Effect::Nothing);
}

#[test]
fn day_keys_move_the_date() {
    let mut s = screen_with(three());
    s.selected = 2;
    let e = s.handle_key(UiKey::Char('l'));
    assert_eq!(e, Effect::Reload { after: None, last: false });
    assert_eq!(s.current_date, ymd(2026, 5, 12));
    assert_eq!(s.selected, 0);
    s.handle_key(UiKey::Left);
    s.handle_key(UiKey::Char('['));
    assert_eq!(s.current_date, ymd(2026, 5, 10));
}

#[test]
fn day_keys_cross_month_and_year() {
    let mut s = Screen::new(ymd(2025, 12, 31));
    s.handle_key(UiKey::Right);
    assert_eq!(s.current_date, ymd(2026, 1, 1));
    s.handle_key(UiKey::Char('h'));
    assert_eq!(s.current_date, ymd(2025, 12, 31));
}

#[test]
fn follow_and_back_jump_along_links() {
    let mut migrated = bullet("a1", BulletStatus::Migrated, &[]);
    migrated.migrated_to = Some(MigrationTo {
        target_date: MigrationTarget::Date(ymd(2026, 5, 12)),
        target_id: "k9".to_string(),
    });
    let mut s = screen_with(vec![migrated]);
    s.handle_key(UiKey::Char('f'));
    assert_eq!(s.current_date, ymd(2026, 5, 12));

    let mut arrived = bullet("k9", BulletStatus::Open, &[]);
    arrived.migrated_from = Some(MigrationFrom {
        source_date: ymd(2026, 5, 11),
        source_id: "a1".to_string(),
    });
    s.loaded(Ok(vec![arrived]), None, false);
    s.handle_key(UiKey::Char('b'));
    assert_eq!(s.current_date, ymd(2026, 5, 11));
}

#[test]
fn follow_without_link_says_so() {
    let mut s = screen_with(three());
    assert_eq!(s.handle_key(UiKey::Char('f')), Effect::Nothing);
    assert_eq!(s.status, Some(Notice::NotMigrated));
    s.handle_key(UiKey::Char('b'));
    assert_eq!(s.status, Some(Notice::NotMigratedFrom));
}

#[test]
fn follow_to_backlog_says_so() {
    let mut b = bullet("a1", BulletStatus::Backlogged, &[]);
    b.migrated_to = Some(MigrationTo {
        target_date: MigrationTarget::Backlog,
        target_id: "z1".to_string(),
    });
    let mut s = screen_with(vec![b]);
    s.handle_key(UiKey::Char('f'));
    assert_eq!(s.status, Some(Notice::MigratedToBacklog));
    assert_eq!(s.current_date, ymd(2026, 5, 11));
}

#[test]
fn g_and_i_toggle_with_a_notice() {
    let mut s = screen_with(three());
    s.handle_key(UiKey::Char('g'));
    assert!(s.grouped);
    assert_eq!(s.status, Some(Notice::GroupedByStatus));
    s.handle_key(UiKey::Char('g'));
    assert_eq!(s.status, Some(Notice::FlatView));
    s.handle_key(UiKey::Char('i'));
    assert!(s.emoji_icons);
    assert_eq!(s.status, Some(Notice::IconsEmoji));
    s.handle_key(UiKey::Char('i'));
    assert_eq!(s.status, Some(Notice::IconsMinimal));
    s.handle_key(UiKey::Char('j'));
    assert_eq!(s.status, None);
}

#[test]
fn grab_moves_and_releases() {
    let mut s = screen_with(three());
    s.handle_key(UiKey::Enter);
    assert_eq!(s.mode, Mode::Grab { bullet_id: "a1".to_string(), position: 0 });
    assert_eq!(s.handle_key(UiKey::Char('k')), Effect::Nothing);
    let e = s.handle_key(UiKey::Char('j'));
    assert_eq!(e, Effect::MoveGrabbed { id: "a1".to_string(), delta: 1, to: 1 });
    assert_eq!(s.grab_moved(1), Effect::Reload { after: None, last: false });
    assert_eq!(s.selected, 1);
    assert_eq!(s.mode, Mode::Grab { bullet_id: "a1".to_string(), position: 1 });
    s.handle_key(UiKey::Esc);
    assert_eq!(s.mode, Mode::DailyLog);
    assert_eq!(s.status, Some(Notice::Released));
}

#[test]
fn grab_is_not_offered_in_grouped_view() {
    let mut s = screen_with(three());
    s.handle_key(UiKey::Char('g'));
    s.handle_key(UiKey::Enter);
    assert_eq!(s.mode, Mode::DailyLog);
}

#[test]
fn review_steps_through_tasks() {
    let mut s = screen_with(three());
    assert_eq!(s.handle_key(UiKey::Char('r')), Effect::StartReview);
    s.start_review(Ok(vec!["b2".to_string(), "c3".to_string()]));
    assert_eq!(
        s.mode,
        Mode::Review { task_ids: vec!["b2".to_string(), "c3".to_string()], current: 0, total: 2 }
    );
    let e = s.handle_key(UiKey::Char('d'));
    assert_eq!(e, Effect::Resolve { id: "b2".to_string(), how: Resolution::Done });
    assert_eq!(s.resolved(Ok(())), Effect::Nothing);
    let e = s.handle_key(UiKey::Char('m'));
    assert_eq!(e, Effect::Resolve { id: "c3".to_string(), how: Resolution::Migrate });
    let e = s.resolved(Ok(()));
    assert_eq!(e, Effect::Reload { after: Some(Notice::ReviewComplete(2)), last: false });
    assert_eq!(s.mode, Mode::DailyLog);
}

#[test]
fn review_of_a_day_without_open_tasks_says_so() {
    let mut s = screen_with(three());
    s.start_review(Ok(vec![]));
    assert_eq!(s.mode, Mode::DailyLog);
    assert_eq!(s.status, Some(Notice::NoOpenTasksToReview));
}

#[test]
fn review_failure_keeps_the_task() {
    let mut s = screen_with(three());
    s.start_review(Ok(vec!["b2".to_string()]));
    assert_eq!(s.resolved(Err("nope".to_string())), Effect::Nothing);
    assert_eq!(s.status, Some(Notice::Error("nope".to_string())));
    assert!(matches!(s.mode, Mode::Review { current: 0, .. }));
    let e = s.handle_key(UiKey::Esc);
    assert_eq!(e, Effect::Reload { after: Some(Notice::ReviewCancelled), last: false });
    assert_eq!(s.mode, Mode::DailyLog);
}

#[test]
fn open_tasks_view_jumps_to_a_day() {
    let mut s = screen_with(three());
    assert_eq!(s.handle_key(UiKey::Char('O')), Effect::ShowOpenTasks);
    let tasks = vec![
        (ymd(2026, 5, 11), bullet("b2", BulletStatus::Open, &[])),
        (ymd(2026, 5, 8), bullet("q1", BulletStatus::Open, &[])),
    ];
    s.show_open_tasks(Ok(tasks));
    s.handle_key(UiKey::Char('k'));
    s.handle_key(UiKey::Char('j'));
    s.handle_key(UiKey::Char('j'));
    assert!(matches!(s.mode, Mode::OpenTasks { selected: 1, .. }));
    let e = s.handle_key(UiKey::Enter);
    assert_eq!(e, Effect::Reload { after: None, last: false });
    assert_eq!(s.mode, Mode::DailyLog);
    assert_eq!(s.current_date, ymd(2026, 5, 8));
}

#[test]
fn no_open_tasks_says_so() {
    let mut s = screen_with(three());
    s.show_open_tasks(Ok(vec![]));
    assert_eq!(s.status, Some(Notice::NoOpenTasks));
}

#[test]
fn history_needs_a_link() {
    let mut s = screen_with(three());
    s.handle_key(UiKey::Char('H'));
    assert_eq!(s.status, Some(Notice::NoMigrationHistory));

    let mut b = bullet("a1", BulletStatus::Migrated, &[]);
    b.migrated_to = Some(MigrationTo {
        target_date: MigrationTarget::Date(ymd(2026, 5, 12)),
        target_id: "k9".to_string(),
    });
    let mut s = screen_with(vec![b]);
    let e = s.handle_key(UiKey::Char('H'));
    assert_eq!(e, Effect::ShowHistory { id: "a1".to_string(), title: "task a1".to_string() });
    let chain = vec![
        (ymd(2026, 5, 11), "a1".to_string(), BulletStatus::Migrated, "task a1".to_string()),
        (ymd(2026, 5, 12), "k9".to_string(), BulletStatus::Open, "task a1".to_string()),
    ];
    s.show_history("task a1".to_string(), Ok(chain));
    assert!(matches!(s.mode, Mode::MigrationHistory { .. }));
    s.handle_key(UiKey::Char('q'));
    assert_eq!(s.mode, Mode::DailyLog);
    assert!(!s.should_quit);
}

#[test]
fn picker_migrates_to_the_highlighted_day() {
    let mut s = screen_with(three());
    s.open_picker("a1".to_string(), &weekdays());
    assert_eq!(s.handle_key(UiKey::Char('q')), Effect::Nothing);
    assert!(!s.should_quit);
    s.handle_key(UiKey::Down);
    let e = s.handle_key(UiKey::Enter);
    assert_eq!(e, Effect::MigrateTo { id: "a1".to_string(), date: ymd(2026, 5, 13) });
    assert!(s.picker.is_none());
}

#[test]
fn picker_esc_closes_without_effect() {
    let mut s = screen_with(three());
    s.open_picker("a1".to_string(), &weekdays());
    assert_eq!(s.handle_key(UiKey::Esc), Effect::Nothing);
    assert!(s.picker.is_none());
}

#[test]
fn op_finished_reloads_or_reports() {
    let mut s = screen_with(three());
    assert_eq!(s.op_finished(Ok(()), true), Effect::Reload { after: None, last: true });
    assert_eq!(s.op_finished(Err("gone".to_string()), false), Effect::Nothing);
    assert_eq!(s.status, Some(Notice::Error("gone".to_string())));
}

#[test]
fn form_effect_keeps_notes_when_edit_leaves_none() {
    let r = FormResult { text: "new".to_string(), notes: vec![] };
    let e = form_effect(FormMode::Edit { bullet_id: "a1".to_string() }, r);
    assert_eq!(e, Effect::Update { id: "a1".to_string(), text: "new".to_string(), notes: None });
    let r = FormResult { text: "t".to_string(), notes: vec!["n".to_string()] };
    let e = form_effect(FormMode::Add, r);
    assert_eq!(e, Effect::Add { text: "t".to_string(), notes: vec!["n".to_string()] });
}

#[test]
fn flat_rows_list_bullets_then_their_notes() {
    let rows = list_rows(&three(), false);
    assert_eq!(
        rows,
        vec![
            ListRow::Item { index: 0 },
            ListRow::Item { index: 1 },
            ListRow::Note { index: 1, line: 0 },
            ListRow::Note { index: 1, line: 1 },
            ListRow::Item { index: 2 },
        ]
    );
}

#[test]
fn grouped_rows_have_headers_with_counts_and_skip_empty_groups() {
    let rows = list_rows(&three(), true);
    assert_eq!(
        rows,
        vec![
            ListRow::Header { status: BulletStatus::Open, count: 2 },
            ListRow::Item { index: 1 },
            ListRow::Note { index: 1, line: 0 },
            ListRow::Note { index: 1, line: 1 },
            ListRow::Item { index: 2 },
            ListRow::Header { status: BulletStatus::Done, count: 1 },
            ListRow::Item { index: 0 },
        ]
    );
}

#[test]
fn scroll_keeps_the_selected_bullet_visible() {
    let rows = list_rows(&three(), true);
    // Bullet 0 is on row 6; with 3 lines visible the list scrolls by 4.
    assert_eq!(scroll_offset(&rows, 0, 3), 4);
    assert_eq!(scroll_offset(&rows, 1, 3), 0);
    assert_eq!(scroll_offset(&rows, 9, 3), 0);
    assert_eq!(scroll_offset(&rows, 0, 0), 6);
}

#[test]
fn task_rows_group_by_date() {
    let tasks = vec![
        (ymd(2026, 5, 11), bullet("a1", BulletStatus::Open, &[])),
        (ymd(2026, 5, 11), bullet("b2", BulletStatus::Open, &[])),
        (ymd(2026, 5, 9), bullet("c3", BulletStatus::Open, &[])),
    ];
    assert_eq!(
        task_rows(&tasks, &vec![0, 2, 1]),
        vec![
            TaskRow::Day(ymd(2026, 5, 11)),
            TaskRow::Task { index: 0, migrations: 0 },
            TaskRow::Task { index: 1, migrations: 2 },
            TaskRow::Gap,
            TaskRow::Day(ymd(2026, 5, 9)),
            TaskRow::Task { index: 2, migrations: 1 },
        ]
    );
    assert!(task_rows(&vec![], &vec![]).is_empty());
}

#[test]
fn history_rows_join_steps() {
    assert_eq!(
        history_rows(3),
        vec![
            HistoryRow::Step { index: 0, last: false },
            HistoryRow::Link,
            HistoryRow::Step { index: 1, last: false },
            HistoryRow::Link,
            HistoryRow::Step { index: 2, last: true },
        ]
    );
    assert_eq!(history_rows(1), vec![HistoryRow::Step { index: 0, last: true }]);
    assert!(history_rows(0).is_empty());
}

#[test]
fn every_bullet_shows_once_in_both_views() {
    let bs = vec![
        bullet("a1", BulletStatus::Backlogged, &["n"]),
        bullet("b2", BulletStatus::Open, &[]),
        bullet("c3", BulletStatus::Cancelled, &[]),
        bullet("d4", BulletStatus::Migrated, &["x", "y"]),
        bullet("e5", BulletStatus::Done, &[]),
        bullet("f6", BulletStatus::Open, &[]),
    ];
    for grouped in [false, true] {
        let rows = list_rows(&bs, grouped);
        let mut items: Vec<usize> = rows
            .iter()
            .filter_map(|r| match r {
                ListRow::Item { index } => Some(*index),
                _ => None,
            })
            .collect();
        if !grouped {
            assert_eq!(items, vec![0, 1, 2, 3, 4, 5]);
        } else {
            assert_eq!(items, vec![1, 5, 4, 3, 2, 0]);
        }
        items.sort();
        assert_eq!(items, vec![0, 1, 2, 3, 4, 5]);
    }
    // The selection never leaves the list, whichever way it moves.
    for grouped in [false, true] {
        for start in 0..bs.len() {
            assert!(move_down(&bs, start, grouped) < bs.len());
            assert!(move_up(&bs, start, grouped) < bs.len());
        }
    }
}

#[test]
fn picker_offers_the_next_thirty_work_days() {
    let mut s = screen_with(three());
    s.open_picker("a1".to_string(), &weekdays());
    let p = s.picker.as_ref().unwrap();
    assert_eq!(p.bullet_id, "a1");
    assert_eq!(p.dates.len(), 30);
    assert_eq!(p.dates[0], ymd(2026, 5, 12));
    assert_eq!(p.dates[3], ymd(2026, 5, 15));
    assert_eq!(p.dates[4], ymd(2026, 5, 18));
    assert_eq!(p.dates[29], ymd(2026, 6, 22));
}
