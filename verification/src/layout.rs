//! What the views of the terminal interface show, row by row: the daily log
//! flat or grouped by status, the open tasks of recent days under their
//! dates, a bullet's migration timeline, and which tasks under review are
//! stale. Colours and glyphs are left to the interface.

use crate::date::{day_count, days_between, Date};
use crate::model::{bullets_view, Bullet, BulletStatus, BulletView};
use crate::tui::{positions_of_status, positions_view, positions_with};
use vstd::prelude::*;

verus! {

// ---------------------------------------------------------------------------
// The daily log

/// A row of the daily log.
#[derive(Debug, Clone, Copy, PartialEq, Eq, Structural)]
pub enum ListRow {
    /// The header of a status group and the number of bullets in it.
    Header { status: BulletStatus, count: usize },
    /// The bullet at `index`.
    Item { index: usize },
    /// Note `line` of the bullet at `index`.
    Note { index: usize, line: usize },
}

/// The rows of the bullet at `i`: the bullet, then each of its notes.
pub open spec fn item_rows(bs: Seq<BulletView>, i: int) -> Seq<ListRow> {
    seq![ListRow::Item { index: i as usize }] + Seq::new(
        bs[i].notes.len(),
        |k: int| ListRow::Note { index: i as usize, line: k as usize },
    )
}

/// The rows of the bullets at positions `ps`, in that order.
pub open spec fn rows_of(bs: Seq<BulletView>, ps: Seq<int>) -> Seq<ListRow>
    decreases ps.len(),
{
    if ps.len() == 0 {
        seq![]
    } else {
        rows_of(bs, ps.drop_last()) + item_rows(bs, ps.last())
    }
}

/// The rows of the group of status `s`: its header and its bullets, or no
/// row at all when no bullet has that status.
pub open spec fn group_rows(bs: Seq<BulletView>, s: BulletStatus) -> Seq<ListRow> {
    let ps = positions_with(bs, s);
    if ps.len() == 0 {
        seq![]
    } else {
        seq![ListRow::Header { status: s, count: ps.len() as usize }] + rows_of(bs, ps)
    }
}

/// The rows of the daily log: every bullet in the order of the log, or,
/// grouped, the groups in the order open, done, migrated, cancelled,
/// backlogged.
pub open spec fn list_rows_of(bs: Seq<BulletView>, grouped: bool) -> Seq<ListRow> {
    if grouped {
        group_rows(bs, BulletStatus::Open) + group_rows(bs, BulletStatus::Done) + group_rows(
            bs,
            BulletStatus::Migrated,
        ) + group_rows(bs, BulletStatus::Cancelled) + group_rows(bs, BulletStatus::Backlogged)
    } else {
        rows_of(bs, Seq::new(bs.len(), |i: int| i))
    }
}

fn push_item_rows(rows: &mut Vec<ListRow>, bullets: &Vec<Bullet>, i: usize)
    requires
        i < bullets.len(),
    ensures
        final(rows)@ == old(rows)@ + item_rows(bullets_view(bullets@), i as int),
{
    let ghost bs = bullets_view(bullets@);
    let ghost start = rows@;
    rows.push(ListRow::Item { index: i });
    let n = bullets[i].notes.len();
    assert(bs[i as int].notes.len() == n);
    let mut k: usize = 0;
    while k < n
        invariant
            k <= n,
            n == bs[i as int].notes.len(),
            rows@ == start + seq![ListRow::Item { index: i }] + Seq::new(
                k as nat,
                |j: int| ListRow::Note { index: i, line: j as usize },
            ),
        decreases n - k,
    {
        rows.push(ListRow::Note { index: i, line: k });
        k = k + 1;
        assert(Seq::new(k as nat, |j: int| ListRow::Note { index: i, line: j as usize }) =~= Seq::new(
            (k - 1) as nat,
            |j: int| ListRow::Note { index: i, line: j as usize },
        ).push(ListRow::Note { index: i, line: (k - 1) as usize }));
    }
    assert(rows@ =~= start + item_rows(bs, i as int));
}

fn push_rows_of(rows: &mut Vec<ListRow>, bullets: &Vec<Bullet>, ps: &Vec<usize>)
    requires
        forall|j: int| 0 <= j < ps.len() ==> ps@[j] < bullets.len(),
    ensures
        final(rows)@ == old(rows)@ + rows_of(bullets_view(bullets@), positions_view(ps@)),
{
    let ghost bs = bullets_view(bullets@);
    let ghost start = rows@;
    let ghost pv = positions_view(ps@);
    let mut k: usize = 0;
    while k < ps.len()
        invariant
            k <= ps.len(),
            bs == bullets_view(bullets@),
            pv == positions_view(ps@),
            forall|j: int| 0 <= j < ps.len() ==> ps@[j] < bullets.len(),
            rows@ == start + rows_of(bs, pv.take(k as int)),
        decreases ps.len() - k,
    {
        assert(pv.take(k + 1).drop_last() =~= pv.take(k as int));
        assert(pv.take(k + 1).last() == ps@[k as int] as int);
        push_item_rows(rows, bullets, ps[k]);
        k = k + 1;
        assert(rows@ =~= start + rows_of(bs, pv.take(k as int)));
    }
    assert(pv.take(ps.len() as int) =~= pv);
}

fn push_group_rows(rows: &mut Vec<ListRow>, bullets: &Vec<Bullet>, s: BulletStatus)
    ensures
        final(rows)@ == old(rows)@ + group_rows(bullets_view(bullets@), s),
{
    let ps = positions_of_status(bullets, s);
    if ps.len() > 0 {
        let ghost start = rows@;
        rows.push(ListRow::Header { status: s, count: ps.len() });
        push_rows_of(rows, bullets, &ps);
        assert(rows@ =~= start + group_rows(bullets_view(bullets@), s));
    } else {
        assert(group_rows(bullets_view(bullets@), s) =~= seq![]);
        assert(rows@ =~= rows@ + seq![]);
    }
}

/// The rows the daily log shows.
pub fn list_rows(bullets: &Vec<Bullet>, grouped: bool) -> (rows: Vec<ListRow>)
    ensures
        rows@ == list_rows_of(bullets_view(bullets@), grouped),
{
    let mut rows: Vec<ListRow> = Vec::new();
    if grouped {
        push_group_rows(&mut rows, bullets, BulletStatus::Open);
        push_group_rows(&mut rows, bullets, BulletStatus::Done);
        push_group_rows(&mut rows, bullets, BulletStatus::Migrated);
        push_group_rows(&mut rows, bullets, BulletStatus::Cancelled);
        push_group_rows(&mut rows, bullets, BulletStatus::Backlogged);
        assert(rows@ =~= list_rows_of(bullets_view(bullets@), grouped));
    } else {
        let mut ps: Vec<usize> = Vec::new();
        let mut i: usize = 0;
        while i < bullets.len()
            invariant
                i <= bullets.len(),
                ps.len() == i,
                forall|j: int| 0 <= j < ps.len() ==> ps@[j] == j,
            decreases bullets.len() - i,
        {
            ps.push(i);
            i = i + 1;
        }
        assert(positions_view(ps@) =~= Seq::new(bullets_view(bullets@).len(), |i: int| i));
        push_rows_of(&mut rows, bullets, &ps);
        assert(rows@ =~= list_rows_of(bullets_view(bullets@), grouped));
    }
    rows
}

/// The bullet a row belongs to; a header belongs to none, which the
/// interface marks with `usize::MAX`.
pub open spec fn row_owner(r: ListRow) -> int {
    match r {
        ListRow::Header { .. } => usize::MAX as int,
        ListRow::Item { index } => index as int,
        ListRow::Note { index, .. } => index as int,
    }
}

/// The first row from `i` on that belongs to bullet `sel`, or `rows.len()`.
pub open spec fn owner_row_from(rows: Seq<ListRow>, sel: int, i: int) -> int
    decreases rows.len() - i,
{
    if i >= rows.len() {
        rows.len() as int
    } else if row_owner(rows[i]) == sel {
        i
    } else {
        owner_row_from(rows, sel, i + 1)
    }
}

/// How many rows to scroll so that the first row of the selected bullet is
/// on the last of `height` visible lines (or the top row when the selected
/// bullet has none).
pub open spec fn scroll_of(rows: Seq<ListRow>, sel: int, height: int) -> int {
    let f = owner_row_from(rows, sel, 0);
    let first = if f < rows.len() {
        f
    } else {
        0
    };
    let room = if height >= 1 {
        height - 1
    } else {
        0
    };
    if first >= room {
        first - room
    } else {
        0
    }
}

proof fn lemma_owner_row_from(rows: Seq<ListRow>, sel: int, i: int, r: int)
    requires
        0 <= i <= r <= rows.len(),
        forall|j: int| i <= j < r ==> row_owner(#[trigger] rows[j]) != sel,
        r < rows.len() ==> row_owner(rows[r]) == sel,
    ensures
        owner_row_from(rows, sel, i) == r,
    decreases r - i,
{
    if i < r {
        lemma_owner_row_from(rows, sel, i + 1, r);
    }
}

fn owner_of(r: ListRow) -> (o: usize)
    ensures
        o == row_owner(r),
{
    match r {
        ListRow::Header { .. } => usize::MAX,
        ListRow::Item { index } => index,
        ListRow::Note { index, .. } => index,
    }
}

/// The first visible row when the list has `height` lines.
pub fn scroll_offset(rows: &Vec<ListRow>, selected: usize, height: usize) -> (r: usize)
    ensures
        r == scroll_of(rows@, selected as int, height as int),
{
    let mut k: usize = 0;
    while k < rows.len() && owner_of(rows[k]) != selected
        invariant
            k <= rows.len(),
            forall|j: int| 0 <= j < k ==> row_owner(#[trigger] rows@[j]) != selected,
        decreases rows.len() - k,
    {
        k = k + 1;
    }
    proof {
        lemma_owner_row_from(rows@, selected as int, 0, k as int);
    }
    let first = if k < rows.len() {
        k
    } else {
        0
    };
    let room = if height >= 1 {
        height - 1
    } else {
        0
    };
    if first >= room {
        first - room
    } else {
        0
    }
}

// ---------------------------------------------------------------------------
// The open tasks of recent days

/// A row of the open-tasks view.
#[derive(Debug, Clone, Copy, PartialEq, Eq, Structural)]
pub enum TaskRow {
    /// An empty line between two days.
    Gap,
    /// The date heading the tasks of a day.
    Day(Date),
    /// The task at `index`, and how many times it was migrated to get here.
    Task { index: usize, migrations: usize },
}

/// The rows for tasks of dates `ds` migrated `counts` times: each run of
/// tasks of one date under a heading with the date, the runs apart by an
/// empty line, each task with its count.
pub open spec fn task_rows_of(ds: Seq<Date>, counts: Seq<usize>) -> Seq<TaskRow>
    decreases ds.len(),
{
    if ds.len() == 0 {
        seq![]
    } else {
        let n = ds.len() - 1;
        let head = if n == 0 {
            seq![TaskRow::Day(ds[0])]
        } else if ds[n] != ds[n - 1] {
            seq![TaskRow::Gap, TaskRow::Day(ds[n])]
        } else {
            seq![]
        };
        task_rows_of(ds.drop_last(), counts) + head + seq![
            TaskRow::Task { index: n as usize, migrations: counts[n] },
        ]
    }
}

/// The dates of the tasks.
pub open spec fn task_dates(tasks: Seq<(Date, Bullet)>) -> Seq<Date> {
    tasks.map_values(|t: (Date, Bullet)| t.0)
}

/// The rows the open-tasks view shows, where `counts` says how many times
/// each task was migrated.
pub fn task_rows(tasks: &Vec<(Date, Bullet)>, counts: &Vec<usize>) -> (rows: Vec<TaskRow>)
    requires
        counts.len() == tasks.len(),
    ensures
        rows@ == task_rows_of(task_dates(tasks@), counts@),
{
    let ghost ds = task_dates(tasks@);
    let mut rows: Vec<TaskRow> = Vec::new();
    let mut k: usize = 0;
    while k < tasks.len()
        invariant
            k <= tasks.len(),
            ds == task_dates(tasks@),
            counts.len() == tasks.len(),
            rows@ == task_rows_of(ds.take(k as int), counts@),
        decreases tasks.len() - k,
    {
        assert(ds.take(k + 1).drop_last() =~= ds.take(k as int));
        let d = tasks[k].0;
        if k == 0 {
            rows.push(TaskRow::Day(d));
        } else if d != tasks[k - 1].0 {
            rows.push(TaskRow::Gap);
            rows.push(TaskRow::Day(d));
        }
        rows.push(TaskRow::Task { index: k, migrations: counts[k] });
        k = k + 1;
        assert(rows@ =~= task_rows_of(ds.take(k as int), counts@));
    }
    assert(ds.take(tasks.len() as int) =~= ds);
    rows
}

// ---------------------------------------------------------------------------
// The migration timeline

/// A row of a migration timeline.
#[derive(Debug, Clone, Copy, PartialEq, Eq, Structural)]
pub enum HistoryRow {
    /// Step `index` of the chain; `last` for the final one.
    Step { index: usize, last: bool },
    /// The line joining a step to the next.
    Link,
}

/// The rows for the first `k` steps of a chain of `n`: each step, and a
/// link after every step but the last.
pub open spec fn history_rows_upto(k: nat, n: nat) -> Seq<HistoryRow>
    decreases k,
{
    if k == 0 {
        seq![]
    } else {
        let i = k - 1;
        let step = seq![HistoryRow::Step { index: i as usize, last: i == n - 1 }];
        history_rows_upto((k - 1) as nat, n) + step + if i == n - 1 {
            seq![]
        } else {
            seq![HistoryRow::Link]
        }
    }
}

/// The rows of the timeline of a chain of `n` steps.
pub fn history_rows(n: usize) -> (rows: Vec<HistoryRow>)
    ensures
        rows@ == history_rows_upto(n as nat, n as nat),
{
    let mut rows: Vec<HistoryRow> = Vec::new();
    let mut k: usize = 0;
    while k < n
        invariant
            k <= n,
            rows@ == history_rows_upto(k as nat, n as nat),
        decreases n - k,
    {
        let last = k + 1 == n;
        rows.push(HistoryRow::Step { index: k, last });
        if !last {
            rows.push(HistoryRow::Link);
        }
        k = k + 1;
        assert(rows@ =~= history_rows_upto(k as nat, n as nat));
    }
    rows
}

// ---------------------------------------------------------------------------
// The review

/// Whether a task first logged on `since` is flagged as stale on `today`:
/// `threshold` days or more have passed since.
pub fn is_stale(since: Date, today: Date, threshold: u32) -> (r: bool)
    requires
        since.valid(),
        today.valid(),
    ensures
        r == (days_between(since, today) >= threshold),
{
    let a = day_count(since);
    let b = day_count(today);
    b - a >= threshold as i64
}

} // verus!
