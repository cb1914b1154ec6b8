//! Laws of the journal's operations: what one operation undoes of another,
//! and what the operations keep.

use crate::date::{next_day, prev_day, Date};
use crate::error::{ErrorView, UnmigrateOutcome};
use crate::model::{BulletStatus, BulletView, DailyLogView};
use crate::ops::{
    chain_step_spec, origin_spec,
    edit_spec, group_order, grouped, groups_upto, id_used, ids_unique, index_of, lemma_index_of,
    migrate_spec, move_spec, move_to_spec, only_status, reverted, status_change_spec,
    transfer_check, unmigrate_spec, unmigrate_target_spec, with_status, without_id, clamp,
    delete_spec, edited, new_bullet,
};
use crate::model::{status_name, MigrationTarget};
use crate::mcp::status_named;
use crate::config::{ascii_lowercase, is_ascii_text, short_name, weekday_named};
use crate::date::Weekday;
use crate::text::{first_from, lemma_trim_of_trimmed, trim};
use crate::layout::{group_rows, item_rows, list_rows_of, rows_of, task_rows_of, ListRow, TaskRow};
use crate::screen::{cursor_down, cursor_up, key_step, place_of, Effect, Mode, Resolution, Screen, UiKey};
use crate::tui::{form_after, grouped_positions, positions_with, FormKey, FormState, MigratePicker};
use vstd::prelude::*;

verus! {

// ---------------------------------------------------------------------------
// Finding IDs in lists that keep their IDs

proof fn lemma_first_from_ext(n: int, i: int, p: spec_fn(int) -> bool, q: spec_fn(int) -> bool)
    requires
        forall|k: int| i <= k < n ==> #[trigger] p(k) == q(k),
    ensures
        first_from(n, i, p) == first_from(n, i, q),
    decreases n - i,
{
    if i < n {
        assert(p(i) == q(i));
        lemma_first_from_ext(n, i + 1, p, q);
    }
}

/// Two lists with the same IDs at the same places find an ID at the same
/// place.
pub proof fn lemma_index_of_same_ids(a: Seq<BulletView>, b: Seq<BulletView>, id: Seq<char>)
    requires
        a.len() == b.len(),
        forall|k: int| 0 <= k < a.len() ==> #[trigger] a[k].id == b[k].id,
    ensures
        index_of(a, id) == index_of(b, id),
{
    let p = |k: int| a[k].id == id;
    let q = |k: int| b[k].id == id;
    assert forall|k: int| 0 <= k < a.len() implies #[trigger] p(k) == q(k) by {
        assert(a[k].id == b[k].id);
    }
    lemma_first_from_ext(a.len() as int, 0, p, q);
}

/// Replacing a bullet by one with the same ID leaves every ID where it was.
proof fn lemma_update_same_id(bs: Seq<BulletView>, i: int, b: BulletView, id: Seq<char>)
    requires
        0 <= i < bs.len(),
        b.id == bs[i].id,
    ensures
        index_of(bs.update(i, b), id) == index_of(bs, id),
{
    assert forall|k: int| 0 <= k < bs.len() implies #[trigger] bs.update(i, b)[k].id == bs[k].id by {
        if k == i {
        }
    }
    lemma_index_of_same_ids(bs.update(i, b), bs, id);
}

/// An ID that no bullet has is found at the end.
proof fn lemma_unused_not_found(bs: Seq<BulletView>, id: Seq<char>)
    requires
        !id_used(bs, id),
    ensures
        forall|k: int| 0 <= k < bs.len() ==> #[trigger] bs[k].id != id,
{
    lemma_index_of(bs, id);
}

/// Removing an ID that no bullet has leaves the list as it is.
proof fn lemma_without_unused(bs: Seq<BulletView>, id: Seq<char>)
    requires
        forall|k: int| 0 <= k < bs.len() ==> #[trigger] bs[k].id != id,
    ensures
        without_id(bs, id) == bs,
    decreases bs.len(),
{
    if bs.len() > 0 {
        let d = bs.drop_last();
        assert forall|k: int| 0 <= k < d.len() implies #[trigger] d[k].id != id by {
            assert(d[k] == bs[k]);
        }
        lemma_without_unused(d, id);
        assert(bs.last() == bs[bs.len() - 1]);
        assert(d.push(bs.last()) =~= bs);
    }
}

// ---------------------------------------------------------------------------
// What undoes what

/// Reopening a bullet that was just completed or cancelled gives back the
/// bullet and the log as they were.
pub proof fn law_reopen_undoes_close(log: DailyLogView, id: Seq<char>, to: BulletStatus)
    requires
        to == BulletStatus::Done || to == BulletStatus::Cancelled,
        status_change_spec(log, id, to).0 is Ok,
    ensures
        status_change_spec(status_change_spec(log, id, to).1, id, BulletStatus::Open) == (
            Ok::<BulletView, ErrorView>(log.bullets[index_of(log.bullets, id)]),
            log,
        ),
{
    let bs = log.bullets;
    lemma_index_of(bs, id);
    let i = index_of(bs, id);
    let b = bs[i];
    let closed = with_status(b, to);
    let after = status_change_spec(log, id, to).1;
    assert(after.bullets == bs.update(i, closed));
    lemma_update_same_id(bs, i, closed, id);
    assert(index_of(after.bullets, id) == i);
    assert(with_status(closed, BulletStatus::Open) == b);
    assert(after.bullets.update(i, b) =~= bs);
}

/// Unmigrating a bullet that was just migrated gives back both logs: the
/// bullet is open again and its copy is gone. This holds for a bullet that
/// carried no migration links before, since unmigrating clears both links.
pub proof fn law_unmigrate_undoes_migrate(
    src: DailyLogView,
    tgt: DailyLogView,
    id: Seq<char>,
    fresh: Seq<char>,
)
    requires
        transfer_check(src, id, BulletStatus::Migrated) is None,
        !id_used(tgt.bullets, fresh),
        src.bullets[index_of(src.bullets, id)].migrated_to is None,
        src.bullets[index_of(src.bullets, id)].migrated_from is None,
    ensures
        ({
            let m = migrate_spec(src, tgt, id, fresh);
            unmigrate_spec(m.2, m.3, id) == Ok::<
                (UnmigrateOutcome, DailyLogView, DailyLogView),
                ErrorView,
            >((UnmigrateOutcome::TargetDeleted, src, tgt))
        }),
{
    let m = migrate_spec(src, tgt, id, fresh);
    let bs = src.bullets;
    lemma_index_of(bs, id);
    let i = index_of(bs, id);
    let sb = m.0;
    let nb = m.1;
    lemma_update_same_id(bs, i, sb, id);
    assert(m.2.bullets == bs.update(i, sb));
    assert(index_of(m.2.bullets, id) == i);
    assert(m.2.bullets[i] == sb);
    assert(unmigrate_target_spec(m.2, id) == Ok::<(Date, Seq<char>), ErrorView>((tgt.date, fresh)));
    // the copy is the last bullet of the target, and the only one with its ID
    let tb = tgt.bullets;
    lemma_unused_not_found(tb, fresh);
    let tb2 = m.3.bullets;
    assert(tb2 == tb.push(nb));
    let p = |k: int| tb2[k].id == fresh;
    crate::text::lemma_first_from_unique(tb2.len() as int, 0, p, tb.len() as int);
    assert(index_of(tb2, fresh) == tb.len());
    assert(tb2[tb.len() as int] == nb);
    assert(nb.notes.len() == 0);
    // the copy goes away
    assert(tb2.drop_last() =~= tb);
    lemma_without_unused(tb, fresh);
    assert(without_id(tb2, fresh) == tb);
    // the source bullet comes back
    assert(reverted(sb) == bs[i]);
    assert(m.2.bullets.update(i, reverted(sb)) =~= bs);
}

// ---------------------------------------------------------------------------
// What the operations keep

/// Moving a bullet only reorders the list: the same bullets, as often.
pub proof fn law_move_to_permutes(log: DailyLogView, id: Seq<char>, pos: int)
    requires
        pos >= 0,
    ensures
        move_to_spec(log, id, pos).1.bullets.to_multiset() == log.bullets.to_multiset(),
        move_to_spec(log, id, pos).1.date == log.date,
{
    let bs = log.bullets;
    lemma_index_of(bs, id);
    let i = index_of(bs, id);
    if i < bs.len() {
        let rest = bs.remove(i);
        let p = if pos < rest.len() {
            pos
        } else {
            rest.len() as int
        };
        vstd::seq_lib::to_multiset_remove(bs, i);
        vstd::seq_lib::to_multiset_insert(rest, p, bs[i]);
        vstd::seq_lib::to_multiset_contains(bs, bs[i]);
        assert(bs.to_multiset().count(bs[i]) > 0);
        assert(bs.to_multiset().remove(bs[i]).insert(bs[i]) =~= bs.to_multiset());
    }
}

/// Moving a bullet by some places only reorders the list.
pub proof fn law_move_permutes(log: DailyLogView, id: Seq<char>, delta: int)
    ensures
        move_spec(log, id, delta).1.bullets.to_multiset() == log.bullets.to_multiset(),
        move_spec(log, id, delta).1.date == log.date,
{
    lemma_index_of(log.bullets, id);
    let i = index_of(log.bullets, id);
    if i < log.bullets.len() {
        law_move_to_permutes(log, id, clamp(i + delta, 0, log.bullets.len() - 1));
    }
}

/// Where a move by `delta` places puts a bullet found at `i` in a list of
/// `n`: `delta` places further down (up when negative), but no further than
/// either end.
pub open spec fn moved_place(i: int, delta: int, n: int) -> int {
    if i + delta < 0 {
        0
    } else if i + delta > n - 1 {
        n - 1
    } else {
        i + delta
    }
}

/// Moving a bullet by `delta` places takes it out of its place and puts it
/// back `delta` places further down (up when negative), stopping at either
/// end; the other bullets keep their order.
pub proof fn law_move_lands_delta_places_away(log: DailyLogView, id: Seq<char>, delta: int)
    requires
        index_of(log.bullets, id) < log.bullets.len(),
    ensures
        ({
            let i = index_of(log.bullets, id);
            let n = log.bullets.len() as int;
            let p = moved_place(i, delta, n);
            let r = move_spec(log, id, delta);
            &&& r.0 is Ok
            &&& r.1.date == log.date
            &&& r.1.bullets.len() == n
            &&& 0 <= p < n
            &&& r.1.bullets[p] == log.bullets[i]
            &&& r.1.bullets.remove(p) == log.bullets.remove(i)
        }),
{
    let bs = log.bullets;
    lemma_index_of(bs, id);
    let i = index_of(bs, id);
    let n = bs.len() as int;
    let p = moved_place(i, delta, n);
    let rest = bs.remove(i);
    assert(p == clamp(i + delta, 0, n - 1));
    let out = rest.insert(p, bs[i]);
    assert(move_spec(log, id, delta).1.bullets == out);
    assert(out.remove(p) =~= rest);
}

/// With IDs unique, the moved bullet is found at its new place: one place up
/// for `delta == -1` unless it was first, one place down for `delta == 1`
/// unless it was last.
pub proof fn law_move_finds_bullet_at_new_place(log: DailyLogView, id: Seq<char>, delta: int)
    requires
        ids_unique(log.bullets),
        index_of(log.bullets, id) < log.bullets.len(),
    ensures
        index_of(move_spec(log, id, delta).1.bullets, id) == moved_place(
            index_of(log.bullets, id),
            delta,
            log.bullets.len() as int,
        ),
{
    law_move_lands_delta_places_away(log, id, delta);
    let bs = log.bullets;
    lemma_index_of(bs, id);
    let i = index_of(bs, id);
    let p = moved_place(i, delta, bs.len() as int);
    let out = move_spec(log, id, delta).1.bullets;
    let rest = bs.remove(i);
    assert forall|k: int| 0 <= k < p implies #[trigger] out[k].id != id by {
        assert(out.remove(p)[k] == out[k]);
        assert(rest[k] == out[k]);
        if k < i {
            assert(rest[k] == bs[k]);
        } else {
            assert(rest[k] == bs[k + 1]);
        }
    }
    lemma_index_of(out, id);
    let q = index_of(out, id);
    if q < p {
        assert(out[q].id != id);
    } else if q > p {
        assert(out[p].id != id);
    }
}

// ---------------------------------------------------------------------------
// What each operation does to a log

/// Completing, cancelling or reopening a bullet changes its status and
/// nothing else: an open bullet can be completed or cancelled, a completed
/// or cancelled one reopened, and any other change is refused with the log
/// left as it was.
pub proof fn law_status_change_sets_only_the_status(log: DailyLogView, id: Seq<char>, to: BulletStatus)
    requires
        to == BulletStatus::Done || to == BulletStatus::Cancelled || to == BulletStatus::Open,
        index_of(log.bullets, id) < log.bullets.len(),
    ensures
        ({
            let i = index_of(log.bullets, id);
            let b = log.bullets[i];
            let r = status_change_spec(log, id, to);
            let allowed = if to == BulletStatus::Open {
                b.status == BulletStatus::Done || b.status == BulletStatus::Cancelled
            } else {
                b.status == BulletStatus::Open
            };
            &&& (r.0 is Ok <==> allowed)
            &&& !allowed ==> r.1 == log
            &&& allowed ==> {
                &&& r.1.date == log.date
                &&& r.1.bullets.len() == log.bullets.len()
                &&& r.1.bullets[i].status == to
                &&& r.1.bullets[i].id == b.id
                &&& r.1.bullets[i].text == b.text
                &&& r.1.bullets[i].notes == b.notes
                &&& r.1.bullets[i].migrated_to == b.migrated_to
                &&& r.1.bullets[i].migrated_from == b.migrated_from
                &&& r.0 == Ok::<BulletView, ErrorView>(r.1.bullets[i])
                &&& forall|k: int|
                    0 <= k < log.bullets.len() && k != i ==> #[trigger] r.1.bullets[k]
                        == log.bullets[k]
            }
        }),
{
    lemma_index_of(log.bullets, id);
    let i = index_of(log.bullets, id);
    let b = log.bullets[i];
    let out = log.bullets.update(i, with_status(b, to));
    assert(out[i] == with_status(b, to));
}

/// Changing the status of a bullet the log does not hold is refused, and
/// the log stays as it was.
pub proof fn law_status_change_needs_the_bullet(log: DailyLogView, id: Seq<char>, to: BulletStatus)
    requires
        !id_used(log.bullets, id),
    ensures
        status_change_spec(log, id, to).0 is Err,
        status_change_spec(log, id, to).1 == log,
{
}

/// Editing a bullet replaces its text and its notes where new ones are
/// given, and changes nothing else.
pub proof fn law_edit_changes_only_text_and_notes(
    log: DailyLogView,
    id: Seq<char>,
    text: Option<Seq<char>>,
    notes: Option<Seq<Seq<char>>>,
)
    requires
        index_of(log.bullets, id) < log.bullets.len(),
    ensures
        ({
            let i = index_of(log.bullets, id);
            let b = log.bullets[i];
            let r = edit_spec(log, id, |x: BulletView| edited(x, text, notes));
            let e = r.1.bullets[i];
            &&& r.1.date == log.date
            &&& r.1.bullets.len() == log.bullets.len()
            &&& r.0 == Ok::<BulletView, ErrorView>(e)
            &&& e.text == (if text is Some { text->0 } else { b.text })
            &&& e.notes == (if notes is Some { notes->0 } else { b.notes })
            &&& e.id == b.id && e.status == b.status
            &&& e.migrated_to == b.migrated_to && e.migrated_from == b.migrated_from
            &&& forall|k: int|
                0 <= k < log.bullets.len() && k != i ==> #[trigger] r.1.bullets[k] == log.bullets[k]
        }),
{
    lemma_index_of(log.bullets, id);
    let i = index_of(log.bullets, id);
    let e = edited(log.bullets[i], text, notes);
    assert(log.bullets.update(i, e)[i] == e);
}

/// Deleting a bullet of a log whose IDs are unique takes out that bullet
/// alone: its ID is gone and the others keep their order.
pub proof fn law_delete_removes_only_that_bullet(log: DailyLogView, id: Seq<char>)
    requires
        ids_unique(log.bullets),
        index_of(log.bullets, id) < log.bullets.len(),
    ensures
        ({
            let i = index_of(log.bullets, id);
            let r = delete_spec(log, id);
            &&& r.0 is Ok
            &&& r.1.date == log.date
            &&& r.1.bullets.len() + 1 == log.bullets.len()
            &&& !id_used(r.1.bullets, id)
            &&& forall|k: int| 0 <= k < i ==> #[trigger] r.1.bullets[k] == log.bullets[k]
            &&& forall|k: int|
                i <= k < r.1.bullets.len() ==> #[trigger] r.1.bullets[k] == log.bullets[k + 1]
        }),
{
    let bs = log.bullets;
    lemma_index_of(bs, id);
    let i = index_of(bs, id);
    let out = bs.remove(i);
    assert forall|k: int| 0 <= k < out.len() implies #[trigger] out[k].id != id by {
        if k < i {
            assert(out[k] == bs[k]);
        } else {
            assert(out[k] == bs[k + 1]);
        }
    }
    lemma_index_of(out, id);
    if index_of(out, id) < out.len() {
        assert(out[index_of(out, id)].id == id);
    }
}

/// A new bullet is open, with the text and notes it was given and no
/// migration links; added to a log, it is the last task the log's review
/// lists.
pub proof fn law_added_bullet_is_the_last_open_task(
    bs: Seq<BulletView>,
    id: Seq<char>,
    text: Seq<char>,
    notes: Seq<Seq<char>>,
)
    ensures
        new_bullet(id, text, notes).status == BulletStatus::Open,
        new_bullet(id, text, notes).id == id,
        new_bullet(id, text, notes).text == text,
        new_bullet(id, text, notes).notes == notes,
        new_bullet(id, text, notes).migrated_to is None,
        new_bullet(id, text, notes).migrated_from is None,
        only_status(bs.push(new_bullet(id, text, notes)), BulletStatus::Open) == only_status(
            bs,
            BulletStatus::Open,
        ).push(new_bullet(id, text, notes)),
{
    let r = bs.push(new_bullet(id, text, notes));
    assert(r.drop_last() =~= bs);
}

/// Migrating an open bullet to another day links the two both ways: the
/// bullet left behind is migrated and leads to its copy, the copy (open,
/// with the same text and no notes) is added at the end of the other day
/// and leads back to it, and every other bullet stays as it was.
pub proof fn law_migration_links_both_ways(
    src: DailyLogView,
    tgt: DailyLogView,
    id: Seq<char>,
    fresh: Seq<char>,
)
    requires
        transfer_check(src, id, BulletStatus::Migrated) is None,
        !id_used(tgt.bullets, fresh),
    ensures
        ({
            let i = index_of(src.bullets, id);
            let b = src.bullets[i];
            let m = migrate_spec(src, tgt, id, fresh);
            &&& m.2.date == src.date && m.3.date == tgt.date
            &&& m.2.bullets.len() == src.bullets.len()
            &&& m.2.bullets[i] == m.0
            &&& m.0.status == BulletStatus::Migrated && m.0.id == id && m.0.text == b.text
            &&& m.0.notes == b.notes && m.0.migrated_from == b.migrated_from
            &&& forall|k: int|
                0 <= k < src.bullets.len() && k != i ==> #[trigger] m.2.bullets[k] == src.bullets[k]
            &&& m.3.bullets == tgt.bullets.push(m.1)
            &&& m.1.id == fresh && m.1.status == BulletStatus::Open && m.1.text == b.text
            &&& m.1.notes.len() == 0 && m.1.migrated_to is None
            &&& chain_step_spec(m.2, id) matches Some((e, next)) && e.2 == BulletStatus::Migrated
                && next == Some((tgt.date, fresh))
            &&& origin_spec(m.3, fresh) == Some((src.date, id))
        }),
{
    let bs = src.bullets;
    lemma_index_of(bs, id);
    let i = index_of(bs, id);
    let m = migrate_spec(src, tgt, id, fresh);
    lemma_update_same_id(bs, i, m.0, id);
    assert(index_of(m.2.bullets, id) == i);
    lemma_unused_not_found(tgt.bullets, fresh);
    let out = tgt.bullets.push(m.1);
    assert forall|k: int| 0 <= k < tgt.bullets.len() implies #[trigger] out[k].id != fresh by {
        assert(out[k] == tgt.bullets[k]);
    }
    lemma_index_of(out, fresh);
    let q = index_of(out, fresh);
    if q < tgt.bullets.len() {
        assert(out[q].id != fresh);
    }
    assert(out[tgt.bullets.len() as int] == m.1);
    let b = bs[i];
    assert(m.2.bullets[i] == m.0);
    assert(m.0.status == BulletStatus::Migrated && m.0.id == id && m.0.text == b.text);
    assert(m.1.id == fresh && m.1.status == BulletStatus::Open && m.1.text == b.text);
    assert(m.1.notes.len() == 0);
    assert(chain_step_spec(m.2, id) matches Some((e, next)) && e.2 == BulletStatus::Migrated
        && next == Some((tgt.date, fresh)));
    assert(origin_spec(m.3, fresh) == Some((src.date, id)));
}

/// A bullet added under an ID that no bullet has keeps the IDs of a list
/// unique: adding a bullet, migrating to a day and moving to the backlog
/// all add under such an ID.
pub proof fn law_fresh_id_keeps_ids_unique(bs: Seq<BulletView>, b: BulletView)
    requires
        ids_unique(bs),
        !id_used(bs, b.id),
    ensures
        ids_unique(bs.push(b)),
{
    lemma_unused_not_found(bs, b.id);
    let r = bs.push(b);
    assert forall|i: int, j: int| 0 <= i < j < r.len() implies #[trigger] r[i].id != #[trigger] r[j].id by {
        if j == bs.len() {
            assert(r[i] == bs[i]);
        } else {
            assert(r[i] == bs[i] && r[j] == bs[j]);
        }
    }
}

/// An edit that keeps the ID of the bullet keeps the IDs of the log where
/// they were: status changes, new text and notes all do.
pub proof fn law_edit_keeps_ids(log: DailyLogView, id: Seq<char>, f: spec_fn(BulletView) -> BulletView)
    requires
        forall|b: BulletView| #[trigger] f(b).id == b.id,
    ensures
        edit_spec(log, id, f).1.bullets.len() == log.bullets.len(),
        forall|k: int|
            0 <= k < log.bullets.len() ==> #[trigger] edit_spec(log, id, f).1.bullets[k].id
                == log.bullets[k].id,
{
    lemma_index_of(log.bullets, id);
}

// ---------------------------------------------------------------------------
// Grouping by status

/// The number of bullets in the groups `gs`.
pub open spec fn total_len(gs: Seq<(BulletStatus, Seq<BulletView>)>) -> int
    decreases gs.len(),
{
    if gs.len() == 0 {
        0
    } else {
        total_len(gs.drop_last()) + gs.last().1.len()
    }
}

proof fn lemma_only_status_has_status(bs: Seq<BulletView>, s: BulletStatus)
    ensures
        forall|k: int|
            0 <= k < only_status(bs, s).len() ==> (#[trigger] only_status(bs, s)[k]).status == s,
    decreases bs.len(),
{
    if bs.len() > 0 {
        lemma_only_status_has_status(bs.drop_last(), s);
    }
}

proof fn lemma_only_status_sizes(bs: Seq<BulletView>)
    ensures
        only_status(bs, BulletStatus::Open).len() + only_status(bs, BulletStatus::Done).len()
            + only_status(bs, BulletStatus::Migrated).len() + only_status(
            bs,
            BulletStatus::Cancelled,
        ).len() + only_status(bs, BulletStatus::Backlogged).len() == bs.len(),
    decreases bs.len(),
{
    if bs.len() > 0 {
        lemma_only_status_sizes(bs.drop_last());
    }
}

proof fn lemma_groups_upto(bs: Seq<BulletView>, k: int)
    requires
        0 <= k <= 5,
    ensures
        total_len(groups_upto(bs, group_order(), k)) == (if k >= 1 {
            only_status(bs, BulletStatus::Open).len() as int
        } else {
            0
        }) + (if k >= 2 {
            only_status(bs, BulletStatus::Done).len() as int
        } else {
            0
        }) + (if k >= 3 {
            only_status(bs, BulletStatus::Migrated).len() as int
        } else {
            0
        }) + (if k >= 4 {
            only_status(bs, BulletStatus::Cancelled).len() as int
        } else {
            0
        }) + (if k >= 5 {
            only_status(bs, BulletStatus::Backlogged).len() as int
        } else {
            0
        }),
        forall|g: int|
            0 <= g < groups_upto(bs, group_order(), k).len() ==> {
                let e = #[trigger] groups_upto(bs, group_order(), k)[g];
                e.1 == only_status(bs, e.0) && e.1.len() > 0
            },
    decreases k,
{
    if k > 0 {
        lemma_groups_upto(bs, k - 1);
        let rest = groups_upto(bs, group_order(), k - 1);
        let s = group_order()[k - 1];
        let g = only_status(bs, s);
        if g.len() > 0 {
            assert(rest.push((s, g)).drop_last() =~= rest);
        }
    }
}

/// Grouping by status partitions the bullets: each group holds exactly the
/// bullets of its status, in their order, no group is empty, and the group
/// sizes add up to the number of bullets.
pub proof fn law_grouped_partition(bs: Seq<BulletView>)
    ensures
        total_len(grouped(bs)) == bs.len(),
        forall|g: int|
            0 <= g < grouped(bs).len() ==> {
                let e = #[trigger] grouped(bs)[g];
                e.1 == only_status(bs, e.0) && e.1.len() > 0
            },
        forall|g: int, k: int|
            0 <= g < grouped(bs).len() && 0 <= k < grouped(bs)[g].1.len() ==> (
            #[trigger] grouped(bs)[g].1[k]).status == grouped(bs)[g].0,
{
    lemma_groups_upto(bs, 5);
    lemma_only_status_sizes(bs);
    assert forall|g: int, k: int|
        0 <= g < grouped(bs).len() && 0 <= k < grouped(bs)[g].1.len() implies (
        #[trigger] grouped(bs)[g].1[k]).status == grouped(bs)[g].0 by {
        let e = grouped(bs)[g];
        lemma_only_status_has_status(bs, e.0);
        assert(e.1 == only_status(bs, e.0));
        assert(e.1[k] == only_status(bs, e.0)[k]);
    }
}

// ---------------------------------------------------------------------------
// Work-day names

/// The name a weekday is written as in the configuration reads back as the
/// weekday: it is ASCII, trimmed, and its lowercase names it.
pub proof fn law_weekday_name_reads_back(w: Weekday)
    ensures
        is_ascii_text(short_name(w)),
        trim(short_name(w)) == short_name(w),
        weekday_named(ascii_lowercase(trim(short_name(w)))) == Some(w),
{
    reveal_strlit("Mon");
    reveal_strlit("Tue");
    reveal_strlit("Wed");
    reveal_strlit("Thu");
    reveal_strlit("Fri");
    reveal_strlit("Sat");
    reveal_strlit("Sun");
    reveal_strlit("mon");
    reveal_strlit("tue");
    reveal_strlit("wed");
    reveal_strlit("thu");
    reveal_strlit("fri");
    reveal_strlit("sat");
    reveal_strlit("sun");
    reveal_strlit("monday");
    reveal_strlit("tuesday");
    reveal_strlit("wednesday");
    reveal_strlit("thursday");
    reveal_strlit("friday");
    reveal_strlit("saturday");
    let n = short_name(w);
    assert(n.len() == 3);
    assert(!crate::text::is_ws(n[0]) && !crate::text::is_ws(n[2]));
    lemma_trim_of_trimmed(n);
    assert(is_ascii_text(n));
    let l = ascii_lowercase(n);
    assert(l.len() == 3);
    match w {
        Weekday::Mon => {
            assert(l =~= "mon"@);
        },
        Weekday::Tue => {
            assert(l =~= "tue"@);
            assert(l[0] != "mon"@[0]);
            assert(l.len() != "monday"@.len());
        },
        Weekday::Wed => {
            assert(l =~= "wed"@);
            assert(l[0] != "mon"@[0]);
            assert(l.len() != "monday"@.len());
            assert(l[0] != "tue"@[0]);
            assert(l.len() != "tuesday"@.len());
        },
        Weekday::Thu => {
            assert(l =~= "thu"@);
            assert(l[0] != "mon"@[0]);
            assert(l.len() != "monday"@.len());
            assert(l[1] != "tue"@[1]);
            assert(l.len() != "tuesday"@.len());
            assert(l[0] != "wed"@[0]);
            assert(l.len() != "wednesday"@.len());
        },
        Weekday::Fri => {
            assert(l =~= "fri"@);
            assert(l[0] != "mon"@[0]);
            assert(l.len() != "monday"@.len());
            assert(l[0] != "tue"@[0]);
            assert(l.len() != "tuesday"@.len());
            assert(l[0] != "wed"@[0]);
            assert(l.len() != "wednesday"@.len());
            assert(l[0] != "thu"@[0]);
            assert(l.len() != "thursday"@.len());
        },
        Weekday::Sat => {
            assert(l =~= "sat"@);
            assert(l[0] != "mon"@[0]);
            assert(l.len() != "monday"@.len());
            assert(l[0] != "tue"@[0]);
            assert(l.len() != "tuesday"@.len());
            assert(l[0] != "wed"@[0]);
            assert(l.len() != "wednesday"@.len());
            assert(l[0] != "thu"@[0]);
            assert(l.len() != "thursday"@.len());
            assert(l[0] != "fri"@[0]);
            assert(l.len() != "friday"@.len());
        },
        Weekday::Sun => {
            assert(l =~= "sun"@);
            assert(l[0] != "mon"@[0]);
            assert(l.len() != "monday"@.len());
            assert(l[0] != "tue"@[0]);
            assert(l.len() != "tuesday"@.len());
            assert(l[0] != "wed"@[0]);
            assert(l.len() != "wednesday"@.len());
            assert(l[0] != "thu"@[0]);
            assert(l.len() != "thursday"@.len());
            assert(l[0] != "fri"@[0]);
            assert(l.len() != "friday"@.len());
            assert(l[1] != "sat"@[1]);
            assert(l.len() != "saturday"@.len());
        },
    }
}

// ---------------------------------------------------------------------------
// Reviewing a day

proof fn lemma_open_count_update(bs: Seq<BulletView>, i: int, x: BulletView)
    requires
        0 <= i < bs.len(),
    ensures
        only_status(bs.update(i, x), BulletStatus::Open).len() == only_status(
            bs,
            BulletStatus::Open,
        ).len() - (if bs[i].status == BulletStatus::Open {
            1int
        } else {
            0int
        }) + (if x.status == BulletStatus::Open {
            1int
        } else {
            0int
        }),
    decreases bs.len(),
{
    let u = bs.update(i, x);
    let n = bs.len() - 1;
    if i == n {
        assert(u.drop_last() =~= bs.drop_last());
    } else {
        assert(u.drop_last() =~= bs.drop_last().update(i, x));
        lemma_open_count_update(bs.drop_last(), i, x);
    }
}

/// In a review, resolving an open task (done, cancelled or migrated) takes
/// it, and only it, off the day's open tasks: a day whose open tasks have
/// all been resolved has none left.
pub proof fn law_resolving_takes_one_task_off_review(
    log: DailyLogView,
    id: Seq<char>,
    tgt: DailyLogView,
    fresh: Seq<char>,
)
    requires
        id_used(log.bullets, id),
        log.bullets[index_of(log.bullets, id)].status == BulletStatus::Open,
    ensures
        status_change_spec(log, id, BulletStatus::Done).0 is Ok,
        status_change_spec(log, id, BulletStatus::Cancelled).0 is Ok,
        only_status(status_change_spec(log, id, BulletStatus::Done).1.bullets, BulletStatus::Open).len()
            == only_status(log.bullets, BulletStatus::Open).len() - 1,
        only_status(
            status_change_spec(log, id, BulletStatus::Cancelled).1.bullets,
            BulletStatus::Open,
        ).len() == only_status(log.bullets, BulletStatus::Open).len() - 1,
        only_status(migrate_spec(log, tgt, id, fresh).2.bullets, BulletStatus::Open).len()
            == only_status(log.bullets, BulletStatus::Open).len() - 1,
{
    let bs = log.bullets;
    let i = index_of(bs, id);
    lemma_index_of(bs, id);
    lemma_open_count_update(bs, i, with_status(bs[i], BulletStatus::Done));
    lemma_open_count_update(bs, i, with_status(bs[i], BulletStatus::Cancelled));
    let t = migrate_spec(log, tgt, id, fresh);
    lemma_open_count_update(bs, i, t.0);
}

// ---------------------------------------------------------------------------
// Migration chains across days

/// Where following `n` migration links forward from the bullet `id` of day
/// `d` leads, in the journal `j` that gives each day's log.
pub open spec fn forward_link(
    j: spec_fn(Date) -> DailyLogView,
    d: Date,
    id: Seq<char>,
    n: nat,
) -> Option<(Date, Seq<char>)>
    decreases n,
{
    if n == 0 {
        Some((d, id))
    } else {
        match forward_link(j, d, id, (n - 1) as nat) {
            Some((d1, i1)) => match chain_step_spec(j(d1), i1) {
                Some((_, next)) => next,
                None => None,
            },
            None => None,
        }
    }
}

/// Where following `n` links back to where bullets came from leads.
pub open spec fn back_link(j: spec_fn(Date) -> DailyLogView, d: Date, id: Seq<char>, n: nat) -> Option<
    (Date, Seq<char>),
>
    decreases n,
{
    if n == 0 {
        Some((d, id))
    } else {
        match origin_spec(j(d), id) {
            Some((d1, i1)) => back_link(j, d1, i1, (n - 1) as nat),
            None => None,
        }
    }
}

/// The first `p` links of the chain from the bullet `id` of day `d` agree
/// both ways: each bullet a link leads to names the previous one as where
/// it came from.
pub open spec fn links_agree(j: spec_fn(Date) -> DailyLogView, d: Date, id: Seq<char>, p: nat) -> bool {
    forall|k: nat|
        k < p ==> match (#[trigger] forward_link(j, d, id, k), forward_link(j, d, id, k + 1)) {
            (Some(a), Some(b)) => origin_spec(j(b.0), b.1) == Some(a),
            _ => false,
        }
}

/// From any bullet of a migration chain whose links agree both ways, going
/// back to where each bullet came from reaches the chain's first bullet,
/// which came from nowhere: the history of a chain is the same from
/// whichever of its bullets it is asked.
#[verifier::spinoff_prover]
#[verifier::rlimit(40)]
pub proof fn law_history_walks_back_to_the_origin(
    j: spec_fn(Date) -> DailyLogView,
    d: Date,
    id: Seq<char>,
    p: nat,
)
    requires
        origin_spec(j(d), id) is None,
        links_agree(j, d, id, p),
    ensures
        forward_link(j, d, id, p) matches Some(m) && back_link(j, m.0, m.1, p) == Some((d, id)),
    decreases p,
{
    if p > 0 {
        let q = (p - 1) as nat;
        assert forall|k: nat| k < q implies match (
            #[trigger] forward_link(j, d, id, k),
            forward_link(j, d, id, k + 1),
        ) {
            (Some(a), Some(b)) => origin_spec(j(b.0), b.1) == Some(a),
            _ => false,
        } by {
            assert(k < p);
        }
        law_history_walks_back_to_the_origin(j, d, id, q);
        assert(q < p);
        let a = forward_link(j, d, id, q)->0;
        let m = forward_link(j, d, id, p)->0;
        assert(origin_spec(j(m.0), m.1) == Some(a));
        lemma_back_link_step(j, m.0, m.1, a, q);
    }
}

proof fn lemma_back_link_step(
    j: spec_fn(Date) -> DailyLogView,
    d: Date,
    id: Seq<char>,
    a: (Date, Seq<char>),
    q: nat,
)
    requires
        origin_spec(j(d), id) == Some(a),
    ensures
        back_link(j, d, id, q + 1) == back_link(j, a.0, a.1, q),
{
}

/// `n` is how many times the bullet `id` of day `d` was migrated to get
/// there: `n` steps back through where each bullet came from reach a bullet
/// that came from nowhere.
pub open spec fn migration_count_is(j: spec_fn(Date) -> DailyLogView, d: Date, id: Seq<char>, n: nat) -> bool {
    back_link(j, d, id, n) matches Some(o) && origin_spec(j(o.0), o.1) is None
}

proof fn lemma_back_link_split(j: spec_fn(Date) -> DailyLogView, d: Date, id: Seq<char>, n: nat, m: nat)
    ensures
        back_link(j, d, id, n + m) == match back_link(j, d, id, n) {
            Some(o) => back_link(j, o.0, o.1, m),
            None => None::<(Date, Seq<char>)>,
        },
    decreases n,
{
    if n > 0 {
        match origin_spec(j(d), id) {
            Some((d1, i1)) => {
                lemma_back_link_split(j, d1, i1, (n - 1) as nat, m);
                assert((n + m) as nat - 1 == (n - 1) as nat + m);
            },
            None => {},
        }
    }
}

/// A bullet has one migration count at most: going back from it stops at
/// the first bullet that came from nowhere.
pub proof fn law_migration_count_is_unique(
    j: spec_fn(Date) -> DailyLogView,
    d: Date,
    id: Seq<char>,
    n: nat,
    k: nat,
)
    requires
        migration_count_is(j, d, id, n),
        migration_count_is(j, d, id, k),
    ensures
        n == k,
{
    if n < k {
        lemma_back_link_split(j, d, id, n, (k - n) as nat);
        assert((n + (k - n) as nat) as nat == k);
    } else if k < n {
        lemma_back_link_split(j, d, id, k, (n - k) as nat);
        assert((k + (n - k) as nat) as nat == n);
    }
}

/// The bullet `p` links along a chain whose links agree both ways was
/// migrated `p` times: the count the open-tasks view shows.
pub proof fn law_chain_member_migration_count(
    j: spec_fn(Date) -> DailyLogView,
    d: Date,
    id: Seq<char>,
    p: nat,
)
    requires
        origin_spec(j(d), id) is None,
        links_agree(j, d, id, p),
    ensures
        forward_link(j, d, id, p) matches Some(m) && migration_count_is(j, m.0, m.1, p),
{
    law_history_walks_back_to_the_origin(j, d, id, p);
}

// ---------------------------------------------------------------------------
// The views of the terminal interface

/// The positions `0..n`.
pub open spec fn all_places(n: nat) -> Seq<int> {
    Seq::new(n, |i: int| i)
}

proof fn lemma_positions_with_step(bs: Seq<BulletView>, s: BulletStatus)
    requires
        bs.len() > 0,
    ensures
        positions_with(bs, s).to_multiset() == (if bs.last().status == s {
            positions_with(bs.drop_last(), s).to_multiset().insert(bs.len() - 1)
        } else {
            positions_with(bs.drop_last(), s).to_multiset()
        }),
{
    if bs.last().status == s {
        vstd::seq_lib::to_multiset_build(positions_with(bs.drop_last(), s), bs.len() - 1);
    }
}

proof fn lemma_grouped_multiset(bs: Seq<BulletView>)
    ensures
        grouped_positions(bs).to_multiset() == positions_with(bs, BulletStatus::Open).to_multiset()
            .add(positions_with(bs, BulletStatus::Done).to_multiset()).add(
            positions_with(bs, BulletStatus::Migrated).to_multiset(),
        ).add(positions_with(bs, BulletStatus::Cancelled).to_multiset()).add(
            positions_with(bs, BulletStatus::Backlogged).to_multiset(),
        ),
{
    let o = positions_with(bs, BulletStatus::Open);
    let d = positions_with(bs, BulletStatus::Done);
    let m = positions_with(bs, BulletStatus::Migrated);
    let c = positions_with(bs, BulletStatus::Cancelled);
    let b = positions_with(bs, BulletStatus::Backlogged);
    vstd::seq_lib::lemma_multiset_commutative(o, d);
    vstd::seq_lib::lemma_multiset_commutative(o + d, m);
    vstd::seq_lib::lemma_multiset_commutative(o + d + m, c);
    vstd::seq_lib::lemma_multiset_commutative(o + d + m + c, b);
}

/// The grouped view shows the positions of the log, each exactly once: it
/// only reorders the log.
pub proof fn law_grouped_view_reorders(bs: Seq<BulletView>)
    ensures
        grouped_positions(bs).to_multiset() == all_places(bs.len()).to_multiset(),
    decreases bs.len(),
{
    broadcast use vstd::multiset::group_multiset_axioms;

    if bs.len() == 0 {
        assert(grouped_positions(bs) =~= seq![]);
        assert(all_places(0) =~= seq![]);
    } else {
        let p = bs.drop_last();
        let n = bs.len() - 1;
        law_grouped_view_reorders(p);
        lemma_grouped_multiset(bs);
        lemma_grouped_multiset(p);
        lemma_positions_with_step(bs, BulletStatus::Open);
        lemma_positions_with_step(bs, BulletStatus::Done);
        lemma_positions_with_step(bs, BulletStatus::Migrated);
        lemma_positions_with_step(bs, BulletStatus::Cancelled);
        lemma_positions_with_step(bs, BulletStatus::Backlogged);
        assert(all_places(bs.len()) =~= all_places(p.len()).push(n));
        vstd::seq_lib::to_multiset_build(all_places(p.len()), n);
        assert(grouped_positions(bs).to_multiset() =~= grouped_positions(p).to_multiset().insert(
            n,
        ));
    }
}

/// A place that the grouped view shows is a position of the log.
proof fn lemma_grouped_in_range(bs: Seq<BulletView>, k: int)
    requires
        0 <= k < grouped_positions(bs).len(),
    ensures
        0 <= grouped_positions(bs)[k] < bs.len(),
{
    let g = grouped_positions(bs);
    law_grouped_view_reorders(bs);
    vstd::seq_lib::to_multiset_contains(g, g[k]);
    assert(g.contains(g[k]));
    vstd::seq_lib::to_multiset_contains(all_places(bs.len()), g[k]);
    assert(all_places(bs.len()).contains(g[k]));
}

/// Moving the selection up or down keeps it on a bullet, flat or grouped.
pub proof fn law_cursor_stays_on_a_bullet(bs: Seq<BulletView>, sel: int, grouped: bool)
    requires
        0 <= sel < bs.len(),
    ensures
        0 <= cursor_down(bs, sel, grouped) < bs.len(),
        0 <= cursor_up(bs, sel, grouped) < bs.len(),
{
    if grouped {
        let order = grouped_positions(bs);
        let p = place_of(order, sel);
        if 0 <= p + 1 < order.len() {
            lemma_grouped_in_range(bs, p + 1);
        }
        if 0 < p < order.len() {
            lemma_grouped_in_range(bs, p - 1);
        }
        lemma_place_in_range(order, sel, 0);
    }
}

proof fn lemma_place_in_range(s: Seq<int>, x: int, i: int)
    requires
        0 <= i <= s.len(),
    ensures
        i <= crate::screen::place_from(s, x, i) <= s.len(),
    decreases s.len() - i,
{
    if i < s.len() && s[i] != x {
        lemma_place_in_range(s, x, i + 1);
    }
}

/// The bullets that rows show, in order.
pub open spec fn item_indices(rows: Seq<ListRow>) -> Seq<int>
    decreases rows.len(),
{
    if rows.len() == 0 {
        seq![]
    } else {
        let r = item_indices(rows.drop_last());
        match rows.last() {
            ListRow::Item { index } => r.push(index as int),
            _ => r,
        }
    }
}

proof fn lemma_item_indices_add(a: Seq<ListRow>, b: Seq<ListRow>)
    ensures
        item_indices(a + b) == item_indices(a) + item_indices(b),
    decreases b.len(),
{
    if b.len() == 0 {
        assert(a + b =~= a);
        assert(item_indices(a) + item_indices(b) =~= item_indices(a));
    } else {
        lemma_item_indices_add(a, b.drop_last());
        assert((a + b).drop_last() =~= a + b.drop_last());
        assert((a + b).last() == b.last());
        match b.last() {
            ListRow::Item { index } => {
                assert(item_indices(a) + item_indices(b.drop_last()).push(index as int)
                    =~= (item_indices(a) + item_indices(b.drop_last())).push(index as int));
            },
            _ => {},
        }
    }
}

proof fn lemma_notes_show_no_item(i: int, n: nat)
    ensures
        item_indices(
            Seq::new(n, |k: int| ListRow::Note { index: i as usize, line: k as usize }),
        ) == Seq::<int>::empty(),
    decreases n,
{
    if n > 0 {
        let s = Seq::new(n, |k: int| ListRow::Note { index: i as usize, line: k as usize });
        assert(s.drop_last() =~= Seq::new(
            (n - 1) as nat,
            |k: int| ListRow::Note { index: i as usize, line: k as usize },
        ));
        lemma_notes_show_no_item(i, (n - 1) as nat);
    }
}

proof fn lemma_rows_of_items(bs: Seq<BulletView>, ps: Seq<int>)
    requires
        forall|j: int| 0 <= j < ps.len() ==> 0 <= #[trigger] ps[j] <= usize::MAX,
    ensures
        item_indices(rows_of(bs, ps)) == ps,
    decreases ps.len(),
{
    if ps.len() > 0 {
        let i = ps.last();
        lemma_rows_of_items(bs, ps.drop_last());
        let notes = Seq::new(
            bs[i].notes.len(),
            |k: int| ListRow::Note { index: i as usize, line: k as usize },
        );
        lemma_item_indices_add(rows_of(bs, ps.drop_last()), item_rows(bs, i));
        lemma_item_indices_add(seq![ListRow::Item { index: i as usize }], notes);
        lemma_notes_show_no_item(i, bs[i].notes.len());
        assert(item_indices(seq![ListRow::Item { index: i as usize }]) =~= seq![i]) by {
            reveal_with_fuel(item_indices, 2);
            assert(seq![ListRow::Item { index: i as usize }].drop_last() =~= seq![]);
        }
        assert(ps.drop_last().push(i) =~= ps);
    }
}

proof fn lemma_group_items(bs: Seq<BulletView>, s: BulletStatus)
    requires
        bs.len() <= usize::MAX,
    ensures
        item_indices(group_rows(bs, s)) == positions_with(bs, s),
{
    let ps = positions_with(bs, s);
    assert forall|j: int| 0 <= j < ps.len() implies 0 <= #[trigger] ps[j] <= usize::MAX by {
        lemma_positions_with_in_range(bs, s, j);
    }
    lemma_rows_of_items(bs, ps);
    if ps.len() > 0 {
        let h = seq![ListRow::Header { status: s, count: ps.len() as usize }];
        lemma_item_indices_add(h, rows_of(bs, ps));
        assert(item_indices(h) =~= seq![]) by {
            reveal_with_fuel(item_indices, 2);
            assert(h.drop_last() =~= seq![]);
        }
        assert(seq![] + ps =~= ps);
    } else {
        assert(group_rows(bs, s) =~= seq![]);
        assert(ps =~= seq![]);
    }
}

proof fn lemma_positions_with_in_range(bs: Seq<BulletView>, s: BulletStatus, j: int)
    requires
        0 <= j < positions_with(bs, s).len(),
    ensures
        0 <= positions_with(bs, s)[j] < bs.len(),
    decreases bs.len(),
{
    let p = bs.drop_last();
    if j < positions_with(p, s).len() {
        lemma_positions_with_in_range(p, s, j);
    }
}

/// The daily log shows every bullet once as a row of its own, and its notes
/// as rows below it: flat, in the order of the log; grouped, in the order
/// of the groups, which only reorders the log.
pub proof fn law_rows_show_each_bullet_once(bs: Seq<BulletView>)
    requires
        bs.len() <= usize::MAX,
    ensures
        item_indices(list_rows_of(bs, false)) == all_places(bs.len()),
        item_indices(list_rows_of(bs, true)) == grouped_positions(bs),
        item_indices(list_rows_of(bs, true)).to_multiset() == all_places(bs.len()).to_multiset(),
{
    lemma_rows_of_items(bs, Seq::new(bs.len(), |i: int| i));
    assert(Seq::new(bs.len(), |i: int| i) =~= all_places(bs.len()));
    let o = group_rows(bs, BulletStatus::Open);
    let d = group_rows(bs, BulletStatus::Done);
    let m = group_rows(bs, BulletStatus::Migrated);
    let c = group_rows(bs, BulletStatus::Cancelled);
    let b = group_rows(bs, BulletStatus::Backlogged);
    lemma_group_items(bs, BulletStatus::Open);
    lemma_group_items(bs, BulletStatus::Done);
    lemma_group_items(bs, BulletStatus::Migrated);
    lemma_group_items(bs, BulletStatus::Cancelled);
    lemma_group_items(bs, BulletStatus::Backlogged);
    lemma_item_indices_add(o, d);
    lemma_item_indices_add(o + d, m);
    lemma_item_indices_add(o + d + m, c);
    lemma_item_indices_add(o + d + m + c, b);
    law_grouped_view_reorders(bs);
}

// ---------------------------------------------------------------------------
// Key bindings

/// The screen showing `mode`, with no picker and no help overlay in front.
pub open spec fn showing(s: Screen, mode: Mode) -> bool {
    s.picker is None && !s.show_help && s.mode == mode
}

/// In the daily log, the keys that act on a bullet act on the selected one:
/// `d` completes it, `o` reopens it, `x` cancels it, `D` and Delete delete
/// it, `m` migrates it to the next work day, `M` opens the picker for it,
/// `u` unmigrates it and `e` edits it. The view stays as it was, with the
/// status bar cleared.
pub proof fn law_daily_keys_act_on_the_selected_bullet(s: Screen)
    requires
        showing(s, Mode::DailyLog),
        s.selected < s.bullets.len(),
    ensures
        ({
            let id = s.bullets@[s.selected as int].id;
            let t = Screen { status: None, ..s };
            &&& key_step(s, UiKey::Char('d')) == (t, Effect::Complete { id })
            &&& key_step(s, UiKey::Char('o')) == (t, Effect::Reopen { id })
            &&& key_step(s, UiKey::Char('x')) == (t, Effect::Cancel { id })
            &&& key_step(s, UiKey::Char('D')) == (t, Effect::Delete { id })
            &&& key_step(s, UiKey::Delete) == (t, Effect::Delete { id })
            &&& key_step(s, UiKey::Char('m')) == (t, Effect::MigrateNext { id })
            &&& key_step(s, UiKey::Char('M')) == (t, Effect::OpenPicker { id })
            &&& key_step(s, UiKey::Char('u')) == (t, Effect::Unmigrate { id })
            &&& key_step(s, UiKey::Char('e')) == (t, Effect::OpenEditForm { index: s.selected })
        }),
{
}

/// In the daily log each change of a bullet comes from its own key: only
/// `d` completes, only `o` reopens, only `x` cancels, only `D` and Delete
/// delete, only `m` migrates and only `u` unmigrates.
pub proof fn law_daily_effects_come_from_their_keys(s: Screen, key: UiKey)
    requires
        showing(s, Mode::DailyLog),
    ensures
        key_step(s, key).1 is Complete ==> key == UiKey::Char('d'),
        key_step(s, key).1 is Reopen ==> key == UiKey::Char('o'),
        key_step(s, key).1 is Cancel ==> key == UiKey::Char('x'),
        key_step(s, key).1 is Delete ==> key == UiKey::Char('D') || key == UiKey::Delete,
        key_step(s, key).1 is MigrateNext ==> key == UiKey::Char('m'),
        key_step(s, key).1 is Unmigrate ==> key == UiKey::Char('u'),
{
}

/// In the daily log `l` shows the next day and `h` the previous one, from
/// the first bullet; `a` opens the form for a new bullet, `r` starts the
/// review of the day, `O` shows the open tasks of recent days, `g` switches
/// between the flat and the grouped view, and `q` quits.
pub proof fn law_daily_view_keys(s: Screen)
    requires
        showing(s, Mode::DailyLog),
        s.current_date.valid(),
    ensures
        ({
            let t = Screen { status: None, ..s };
            let reload = Effect::Reload { after: None, last: false };
            &&& next_day(s.current_date) matches Some(n) ==> key_step(s, UiKey::Char('l')) == (
                Screen { current_date: n, selected: 0, ..t },
                reload,
            )
            &&& prev_day(s.current_date) matches Some(p) ==> key_step(s, UiKey::Char('h')) == (
                Screen { current_date: p, selected: 0, ..t },
                reload,
            )
            &&& key_step(s, UiKey::Char('a')) == (t, Effect::OpenAddForm)
            &&& key_step(s, UiKey::Char('r')) == (t, Effect::StartReview)
            &&& key_step(s, UiKey::Char('O')) == (t, Effect::ShowOpenTasks)
            &&& key_step(s, UiKey::Char('g')).0.grouped == !s.grouped
            &&& key_step(s, UiKey::Char('g')).1 == Effect::Nothing
            &&& key_step(s, UiKey::Char('q')) == (Screen { should_quit: true, ..t }, Effect::Nothing)
        }),
{
}

/// Esc leaves the review for the daily log, which is read again.
pub proof fn law_review_esc_leaves(s: Screen, task_ids: Vec<String>, current: usize, total: usize)
    requires
        showing(s, Mode::Review { task_ids, current, total }),
    ensures
        key_step(s, UiKey::Esc).0.mode == Mode::DailyLog,
        key_step(s, UiKey::Esc).1 is Reload,
{
}

/// While the migrate picker is open it takes the keys: Enter migrates its
/// bullet to the highlighted day and closes it, Esc closes it, and `j` and
/// `k` move the highlight one day down or up within the list.
pub proof fn law_picker_keys(s: Screen, p: MigratePicker)
    requires
        s.picker == Some(p),
        p.well_formed(),
        p.dates.len() > 0,
        !p.submitted,
        !p.cancelled,
    ensures
        key_step(s, UiKey::Enter) == (
            Screen { picker: None, ..s },
            Effect::MigrateTo { id: p.bullet_id, date: p.dates@[p.cursor as int] },
        ),
        key_step(s, UiKey::Esc) == (Screen { picker: None, ..s }, Effect::Nothing),
        key_step(s, UiKey::Char('j')).1 == Effect::Nothing,
        key_step(s, UiKey::Char('j')).0.picker matches Some(q) && q.cursor == (if p.cursor + 1
            < p.dates.len() {
            p.cursor + 1
        } else {
            p.cursor as int
        }) && q.dates == p.dates && q.bullet_id == p.bullet_id,
        key_step(s, UiKey::Char('k')).0.picker matches Some(q) && q.cursor == (if p.cursor > 0 {
            p.cursor - 1
        } else {
            0
        }) && q.dates == p.dates && q.bullet_id == p.bullet_id,
{
}

/// In review, `d` resolves the current task as done, `x` as cancelled and
/// `m` as migrated, leaving the screen as it was.
pub proof fn law_review_keys_resolve_the_current_task(
    s: Screen,
    task_ids: Vec<String>,
    current: usize,
    total: usize,
)
    requires
        showing(s, Mode::Review { task_ids, current, total }),
        current < task_ids.len(),
    ensures
        ({
            let id = task_ids@[current as int];
            &&& key_step(s, UiKey::Char('d')) == (s, Effect::Resolve { id, how: Resolution::Done })
            &&& key_step(s, UiKey::Char('x')) == (
                s,
                Effect::Resolve { id, how: Resolution::Cancelled },
            )
            &&& key_step(s, UiKey::Char('m')) == (
                s,
                Effect::Resolve { id, how: Resolution::Migrate },
            )
        }),
{
}

/// In review each resolution comes from its own key, and always for the
/// current task: only `d` marks it done, only `x` cancels it and only `m`
/// migrates it.
pub proof fn law_review_resolutions_come_from_their_keys(s: Screen, key: UiKey)
    requires
        s.picker is None,
        !s.show_help,
        s.mode is Review,
    ensures
        key_step(s, key).1 matches Effect::Resolve { id, how } ==> {
            &&& s.mode->current < s.mode->task_ids.len()
            &&& id == s.mode->task_ids@[s.mode->current as int]
            &&& (how == Resolution::Done <==> key == UiKey::Char('d'))
            &&& (how == Resolution::Cancelled <==> key == UiKey::Char('x'))
            &&& (how == Resolution::Migrate <==> key == UiKey::Char('m'))
        },
{
}

/// A held bullet moves one place at a time: `k` asks to move it one place
/// up unless it is first, `j` one place down unless it is last.
pub proof fn law_grab_keys_move_one_place(s: Screen, bullet_id: String, position: usize)
    requires
        showing(s, Mode::Grab { bullet_id, position }),
    ensures
        position > 0 ==> key_step(s, UiKey::Char('k')) == (
            s,
            Effect::MoveGrabbed { id: bullet_id, delta: -1isize, to: (position - 1) as usize },
        ),
        position == 0 ==> key_step(s, UiKey::Char('k')).1 == Effect::Nothing,
        position + 1 < s.bullets.len() ==> key_step(s, UiKey::Char('j')) == (
            s,
            Effect::MoveGrabbed { id: bullet_id, delta: 1isize, to: (position + 1) as usize },
        ),
        position + 1 >= s.bullets.len() ==> key_step(s, UiKey::Char('j')).1 == Effect::Nothing,
{
}

// ---------------------------------------------------------------------------
// Status names

/// Each status is read back from its name, and no two statuses share one.
pub proof fn law_status_names_read_back(a: BulletStatus, b: BulletStatus)
    ensures
        status_named(status_name(a)) == Some(a),
        status_name(a) == status_name(b) ==> a == b,
{
    assert(status_name(a) =~= status_name(a));
    match a {
        BulletStatus::Open => {},
        BulletStatus::Done => {
            assert(status_name(a) != status_name(BulletStatus::Open));
        },
        BulletStatus::Migrated => {
            assert(status_name(a) != status_name(BulletStatus::Open));
            assert(status_name(a) != status_name(BulletStatus::Done));
        },
        BulletStatus::Cancelled => {
            assert(status_name(a) != status_name(BulletStatus::Open));
            assert(status_name(a) != status_name(BulletStatus::Done));
            assert(status_name(a) != status_name(BulletStatus::Migrated));
        },
        BulletStatus::Backlogged => {
            assert(status_name(a) != status_name(BulletStatus::Open));
            assert(status_name(a) != status_name(BulletStatus::Done));
            assert(status_name(a) != status_name(BulletStatus::Migrated));
            assert(status_name(a) != status_name(BulletStatus::Cancelled));
        },
    }
    if status_name(a) == status_name(b) && a != b {
        assert(status_name(a).len() == status_name(b).len());
        assert(status_name(a)[0] == status_name(b)[0]);
    }
}

// ---------------------------------------------------------------------------
// The bullet form

/// In the bullet form Esc cancels, Ctrl+S submits exactly when the text is
/// not blank, Tab moves the focus to the other field and back again, and
/// none of them changes the text.
pub proof fn law_form_keys(f: FormState)
    requires
        !f.submitted,
        !f.cancelled,
    ensures
        form_after(f, FormKey::Esc).cancelled,
        !form_after(f, FormKey::Esc).submitted,
        form_after(f, FormKey::Save).submitted <==> trim(f.text@).len() > 0,
        !form_after(f, FormKey::Save).cancelled,
        form_after(f, FormKey::Tab).focused != f.focused,
        form_after(form_after(f, FormKey::Tab), FormKey::Tab) == f,
        form_after(f, FormKey::Esc).text == f.text,
        form_after(f, FormKey::Save).text == f.text,
        form_after(f, FormKey::Tab).text == f.text,
{
}

// ---------------------------------------------------------------------------
// Reviews and lists by status

/// The bullets of a status (what a review or a status filter lists) are the
/// bullets of the log that have that status, each once, in their order.
pub proof fn law_status_list_is_the_filter(bs: Seq<BulletView>, s: BulletStatus)
    ensures
        only_status(bs, s) == bs.filter(|b: BulletView| b.status == s),
    decreases bs.len(),
{
    reveal(Seq::filter);
    if bs.len() > 0 {
        law_status_list_is_the_filter(bs.drop_last(), s);
    }
}

// ---------------------------------------------------------------------------
// The open-tasks view

/// Whether a row of the open-tasks view is a task.
pub open spec fn is_task_row(r: TaskRow) -> bool {
    r is Task
}

/// The open-tasks view lists every task once, in their order, each with
/// its migration count, and starts with the date of the first task.
pub proof fn law_task_rows_list_each_task_once(ds: Seq<Date>, counts: Seq<usize>)
    requires
        ds.len() <= counts.len(),
    ensures
        task_rows_of(ds, counts).filter(|r: TaskRow| is_task_row(r)) == Seq::new(
            ds.len(),
            |i: int| TaskRow::Task { index: i as usize, migrations: counts[i] },
        ),
        ds.len() > 0 ==> task_rows_of(ds, counts)[0] == TaskRow::Day(ds[0]),
    decreases ds.len(),
{
    let pred = |r: TaskRow| is_task_row(r);
    if ds.len() > 0 {
        let n = ds.len() - 1;
        let head = if n == 0 {
            seq![TaskRow::Day(ds[0])]
        } else if ds[n] != ds[n - 1] {
            seq![TaskRow::Gap, TaskRow::Day(ds[n])]
        } else {
            seq![]
        };
        let last = seq![TaskRow::Task { index: n as usize, migrations: counts[n] }];
        let before = task_rows_of(ds.drop_last(), counts);
        law_task_rows_list_each_task_once(ds.drop_last(), counts);
        assert(task_rows_of(ds, counts) == before + head + last);
        Seq::filter_distributes_over_add(before + head, last, pred);
        Seq::filter_distributes_over_add(before, head, pred);
        reveal(Seq::filter);
        assert(head.filter(pred) =~= Seq::<TaskRow>::empty()) by {
            reveal_with_fuel(Seq::filter, 3);
        }
        assert(last.filter(pred) =~= last) by {
            reveal_with_fuel(Seq::filter, 2);
        }
        assert(task_rows_of(ds, counts).filter(pred) =~= Seq::new(
            ds.len(),
            |i: int| TaskRow::Task { index: i as usize, migrations: counts[i] },
        ));
        if n > 0 {
            assert(before.len() > 0) by {
                lemma_task_rows_nonempty(ds.drop_last(), counts);
            }
            assert(task_rows_of(ds, counts)[0] == before[0]);
        }
    }
}

proof fn lemma_task_rows_nonempty(ds: Seq<Date>, counts: Seq<usize>)
    requires
        ds.len() > 0,
    ensures
        task_rows_of(ds, counts).len() > 0,
{
}

} // verus!
