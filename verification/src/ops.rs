//! The operations of the journal on logs held in memory: adding and editing
//! bullets, status changes, migration to another day or to the backlog and
//! back, reordering, and the queries behind the review views.
//!
//! Reading a log from its file and writing it back is the caller's part:
//! each operation here takes the logs it changes and says exactly how it
//! changes them.

use crate::date::{date_text, format_date, Date};
use crate::error::{Error, ErrorView, UnmigrateOutcome};
use crate::id::{
    generate_id, id_at, id_from_index, id_index, is_valid_id, lemma_id_at, lemma_id_at_onto,
};
use crate::model::{
    bullets_view, copy_bullet, copy_strings, status_name, strings_view, BacklogLog, Bullet,
    BulletStatus, BulletView, DailyLog, DailyLogView, MigrationFrom, MigrationFromView,
    MigrationTarget, MigrationTo, MigrationToView,
};
use crate::text::{first_from, lemma_first_from, lemma_first_from_unique};
use vstd::prelude::*;

verus! {

// ---------------------------------------------------------------------------
// Finding bullets by ID

/// The position of the first bullet with ID `id`, or `bs.len()` when no
/// bullet has it.
pub open spec fn index_of(bs: Seq<BulletView>, id: Seq<char>) -> int {
    first_from(bs.len() as int, 0, |k: int| bs[k].id == id)
}

/// Whether some bullet of `bs` has ID `id`.
pub open spec fn id_used(bs: Seq<BulletView>, id: Seq<char>) -> bool {
    index_of(bs, id) < bs.len()
}

pub proof fn lemma_index_of(bs: Seq<BulletView>, id: Seq<char>)
    ensures
        0 <= index_of(bs, id) <= bs.len(),
        index_of(bs, id) < bs.len() ==> bs[index_of(bs, id)].id == id,
        forall|k: int| 0 <= k < index_of(bs, id) ==> #[trigger] bs[k].id != id,
{
    let p = |k: int| bs[k].id == id;
    lemma_first_from(bs.len() as int, 0, p);
    assert forall|k: int| 0 <= k < index_of(bs, id) implies #[trigger] bs[k].id != id by {
        assert(!p(k));
    }
}

/// The position of the first bullet with ID `id`, or the number of bullets.
pub fn position_of(bullets: &Vec<Bullet>, id: &str) -> (r: usize)
    ensures
        r == index_of(bullets_view(bullets@), id@),
{
    let ghost bs = bullets_view(bullets@);
    let ghost p = |k: int| bs[k].id == id@;
    let key = String::from_str(id);
    let mut i: usize = 0;
    while i < bullets.len()
        invariant
            i <= bullets.len(),
            key@ == id@,
            bs == bullets_view(bullets@),
            p == (|k: int| bs[k].id == id@),
            forall|k: int| 0 <= k < i ==> !#[trigger] p(k),
        decreases bullets.len() - i,
    {
        if bullets[i].id == key {
            proof {
                assert(bs[i as int].id == id@);
                assert(p(i as int));
                lemma_first_from_unique(bs.len() as int, 0, p, i as int);
            }
            return i;
        }
        assert(!p(i as int));
        i = i + 1;
    }
    proof {
        lemma_first_from_unique(bs.len() as int, 0, p, bs.len() as int);
    }
    i
}

// ---------------------------------------------------------------------------
// Fresh IDs

/// Whether every ID is taken by some bullet of `bs`.
pub open spec fn all_ids_used(bs: Seq<BulletView>) -> bool {
    forall|id: Seq<char>| is_valid_id(id) ==> #[trigger] id_used(bs, id)
}

/// Whether no two bullets of `bs` share an ID.
pub open spec fn ids_unique(bs: Seq<BulletView>) -> bool {
    forall|i: int, j: int| 0 <= i < j < bs.len() ==> #[trigger] bs[i].id != #[trigger] bs[j].id
}

/// The first free ID in the order a0, a1, ..., z9, if there is one.
pub fn first_free_id(bullets: &Vec<Bullet>) -> (r: Option<String>)
    ensures
        r matches Some(s) ==> is_valid_id(s@) && !id_used(bullets_view(bullets@), s@),
        r is None <==> all_ids_used(bullets_view(bullets@)),
{
    let ghost bs = bullets_view(bullets@);
    let mut n: u32 = 0;
    while n < 260
        invariant
            n <= 260,
            bs == bullets_view(bullets@),
            forall|m: int| 0 <= m < n ==> #[trigger] id_used(bs, id_at(m)),
        decreases 260 - n,
    {
        let candidate = id_from_index(n);
        let pos = position_of(bullets, candidate.as_str());
        proof {
            lemma_index_of(bs, candidate@);
            lemma_id_at(n as int);
        }
        if pos == bullets.len() {
            assert(!id_used(bs, candidate@));
            return Some(candidate);
        }
        assert(id_used(bs, id_at(n as int)));
        n = n + 1;
    }
    proof {
        assert forall|id: Seq<char>| is_valid_id(id) implies #[trigger] id_used(bs, id) by {
            lemma_id_at_onto(id);
            assert(id_used(bs, id_at(id_index(id))));
        }
    }
    None
}

/// A fresh ID for a new bullet among `bullets`: a random ID when it is free,
/// otherwise the first free one. When every ID is taken, the random
/// candidate comes back as the error.
pub fn generate_unique_id(bullets: &Vec<Bullet>) -> (r: Result<String, String>)
    ensures
        r matches Ok(s) ==> is_valid_id(s@) && !id_used(bullets_view(bullets@), s@),
        r matches Err(c) ==> is_valid_id(c@) && all_ids_used(bullets_view(bullets@)),
        r is Ok <==> !all_ids_used(bullets_view(bullets@)),
{
    let candidate = generate_id();
    if position_of(bullets, candidate.as_str()) == bullets.len() {
        assert(!id_used(bullets_view(bullets@), candidate@));
        return Ok(candidate);
    }
    match first_free_id(bullets) {
        Some(id) => Ok(id),
        None => Err(candidate),
    }
}

// ---------------------------------------------------------------------------
// Results as contracts see them

/// The error for a bullet that a log does not hold.
pub open spec fn not_found(location: Seq<char>, id: Seq<char>) -> ErrorView {
    ErrorView::BulletNotFound { location, id }
}

pub open spec fn bullet_result(r: Result<Bullet, Error>) -> Result<BulletView, ErrorView> {
    match r {
        Ok(b) => Ok(b@),
        Err(e) => Err(e@),
    }
}

pub open spec fn unit_result(r: Result<(), Error>) -> Result<(), ErrorView> {
    match r {
        Ok(()) => Ok(()),
        Err(e) => Err(e@),
    }
}

/// The log `log` with its bullets replaced by `bs`.
pub open spec fn with_bullets(log: DailyLogView, bs: Seq<BulletView>) -> DailyLogView {
    DailyLogView { date: log.date, bullets: bs }
}

// ---------------------------------------------------------------------------
// Editing a bullet

/// Applies `f` to the bullet with ID `id`: the edited bullet and the new
/// log, or the error (and the log unchanged) when there is no such bullet.
pub open spec fn edit_spec(log: DailyLogView, id: Seq<char>, f: spec_fn(BulletView) -> BulletView) -> (
    Result<BulletView, ErrorView>,
    DailyLogView,
) {
    let i = index_of(log.bullets, id);
    if i < log.bullets.len() {
        let b = f(log.bullets[i]);
        (Ok(b), with_bullets(log, log.bullets.update(i, b)))
    } else {
        (Err(not_found(date_text(log.date), id)), log)
    }
}

/// A bullet with new text and notes where they are given.
pub open spec fn edited(b: BulletView, text: Option<Seq<char>>, notes: Option<Seq<Seq<char>>>) -> BulletView {
    BulletView {
        id: b.id,
        status: b.status,
        text: match text {
            Some(t) => t,
            None => b.text,
        },
        notes: match notes {
            Some(n) => n,
            None => b.notes,
        },
        migrated_to: b.migrated_to,
        migrated_from: b.migrated_from,
    }
}

/// A bullet with a new status.
pub open spec fn with_status(b: BulletView, s: BulletStatus) -> BulletView {
    BulletView {
        id: b.id,
        status: s,
        text: b.text,
        notes: b.notes,
        migrated_to: b.migrated_to,
        migrated_from: b.migrated_from,
    }
}

pub open spec fn opt_string_view(s: Option<String>) -> Option<Seq<char>> {
    match s {
        Some(t) => Some(t@),
        None => None,
    }
}

pub open spec fn opt_strings_view(s: Option<Vec<String>>) -> Option<Seq<Seq<char>>> {
    match s {
        Some(v) => Some(strings_view(v@)),
        None => None,
    }
}

// ---------------------------------------------------------------------------
// Status changes

/// Which status changes the journal allows: an open bullet is completed or
/// cancelled; a completed or cancelled bullet is reopened.
pub open spec fn may_change(from: BulletStatus, to: BulletStatus) -> bool {
    if to == BulletStatus::Open {
        from == BulletStatus::Done || from == BulletStatus::Cancelled
    } else {
        from == BulletStatus::Open
    }
}

/// Setting the status of the bullet `id` to `to`.
pub open spec fn status_change_spec(log: DailyLogView, id: Seq<char>, to: BulletStatus) -> (
    Result<BulletView, ErrorView>,
    DailyLogView,
) {
    let i = index_of(log.bullets, id);
    if i < log.bullets.len() && !may_change(log.bullets[i].status, to) {
        (
            Err(
                ErrorView::InvalidStatusTransition {
                    from: crate::model::status_name(log.bullets[i].status),
                    to: crate::model::status_name(to),
                },
            ),
            log,
        )
    } else {
        edit_spec(log, id, |b: BulletView| with_status(b, to))
    }
}

/// The bullets of `bs` with status `s`, in their order.
pub open spec fn only_status(bs: Seq<BulletView>, s: BulletStatus) -> Seq<BulletView>
    decreases bs.len(),
{
    if bs.len() == 0 {
        seq![]
    } else {
        let rest = only_status(bs.drop_last(), s);
        if bs.last().status == s {
            rest.push(bs.last())
        } else {
            rest
        }
    }
}

impl DailyLog {
    /// The error for a bullet that this log does not hold.
    fn not_found_error(&self, id: &str) -> (e: Error)
        ensures
            e@ == not_found(date_text(self.date), id@),
    {
        Error::BulletNotFound { location: format_date(self.date), id: String::from_str(id) }
    }

    fn change_status(&mut self, id: &str, to: BulletStatus) -> (r: Result<Bullet, Error>)
        ensures
            (bullet_result(r), final(self)@) == status_change_spec(old(self)@, id@, to),
    {
        let ghost old_bs = self@.bullets;
        let i = position_of(&self.bullets, id);
        proof {
            lemma_index_of(old_bs, id@);
        }
        if i == self.bullets.len() {
            return Err(self.not_found_error(id));
        }
        let from = self.bullets[i].status;
        let allowed = if to == BulletStatus::Open {
            from == BulletStatus::Done || from == BulletStatus::Cancelled
        } else {
            from == BulletStatus::Open
        };
        if !allowed {
            return Err(
                Error::InvalidStatusTransition {
                    from: String::from_str(from.display_name()),
                    to: String::from_str(to.display_name()),
                },
            );
        }
        self.bullets[i].status = to;
        let b = copy_bullet(&self.bullets[i]);
        proof {
            assert(bullets_view(self.bullets@) =~= old_bs.update(i as int, with_status(old_bs[i as int], to)));
        }
        Ok(b)
    }

    /// Mark an open bullet as done.
    pub fn complete_task(&mut self, id: &str) -> (r: Result<Bullet, Error>)
        ensures
            (bullet_result(r), final(self)@) == status_change_spec(old(self)@, id@, BulletStatus::Done),
    {
        self.change_status(id, BulletStatus::Done)
    }

    /// Mark an open bullet as cancelled.
    pub fn cancel_task(&mut self, id: &str) -> (r: Result<Bullet, Error>)
        ensures
            (bullet_result(r), final(self)@) == status_change_spec(
                old(self)@,
                id@,
                BulletStatus::Cancelled,
            ),
    {
        self.change_status(id, BulletStatus::Cancelled)
    }

    /// Set a done or cancelled bullet back to open.
    pub fn reopen_bullet(&mut self, id: &str) -> (r: Result<Bullet, Error>)
        ensures
            (bullet_result(r), final(self)@) == status_change_spec(old(self)@, id@, BulletStatus::Open),
    {
        self.change_status(id, BulletStatus::Open)
    }
}

// ---------------------------------------------------------------------------
// Removing and reordering

/// Removing the bullet `id`.
pub open spec fn delete_spec(log: DailyLogView, id: Seq<char>) -> (Result<(), ErrorView>, DailyLogView) {
    let i = index_of(log.bullets, id);
    if i < log.bullets.len() {
        (Ok(()), with_bullets(log, log.bullets.remove(i)))
    } else {
        (Err(not_found(date_text(log.date), id)), log)
    }
}

/// Moving the bullet `id` to position `pos` of the list, or to the end when
/// `pos` is past it.
pub open spec fn move_to_spec(log: DailyLogView, id: Seq<char>, pos: int) -> (
    Result<(), ErrorView>,
    DailyLogView,
) {
    let i = index_of(log.bullets, id);
    if i < log.bullets.len() {
        let rest = log.bullets.remove(i);
        let p = if pos < rest.len() {
            pos
        } else {
            rest.len() as int
        };
        (Ok(()), with_bullets(log, rest.insert(p, log.bullets[i])))
    } else {
        (Err(not_found(date_text(log.date), id)), log)
    }
}

/// `x` held within `lo..=hi`.
pub open spec fn clamp(x: int, lo: int, hi: int) -> int {
    if x < lo {
        lo
    } else if x > hi {
        hi
    } else {
        x
    }
}

/// Moving the bullet `id` by `delta` places, no further than either end.
pub open spec fn move_spec(log: DailyLogView, id: Seq<char>, delta: int) -> (
    Result<(), ErrorView>,
    DailyLogView,
) {
    let i = index_of(log.bullets, id);
    if i < log.bullets.len() {
        move_to_spec(log, id, clamp(i + delta, 0, log.bullets.len() - 1))
    } else {
        (Err(not_found(date_text(log.date), id)), log)
    }
}

// ---------------------------------------------------------------------------
// Queries

/// The order in which grouped views list the statuses.
pub open spec fn group_order() -> Seq<BulletStatus> {
    seq![
        BulletStatus::Open,
        BulletStatus::Done,
        BulletStatus::Migrated,
        BulletStatus::Cancelled,
        BulletStatus::Backlogged,
    ]
}

/// The non-empty groups of `bs` for the first `k` statuses of `order`.
pub open spec fn groups_upto(bs: Seq<BulletView>, order: Seq<BulletStatus>, k: int) -> Seq<
    (BulletStatus, Seq<BulletView>),
>
    decreases k,
{
    if k <= 0 {
        seq![]
    } else {
        let rest = groups_upto(bs, order, k - 1);
        let g = only_status(bs, order[k - 1]);
        if g.len() > 0 {
            rest.push((order[k - 1], g))
        } else {
            rest
        }
    }
}

/// The bullets of `bs` grouped by status, in the order of `group_order`,
/// without empty groups.
pub open spec fn grouped(bs: Seq<BulletView>) -> Seq<(BulletStatus, Seq<BulletView>)> {
    groups_upto(bs, group_order(), 5)
}

pub open spec fn groups_view(v: Seq<(BulletStatus, Vec<Bullet>)>) -> Seq<
    (BulletStatus, Seq<BulletView>),
> {
    v.map_values(|p: (BulletStatus, Vec<Bullet>)| (p.0, bullets_view(p.1@)))
}

/// The bullets of `bullets` with status `s`, copied, in their order.
pub fn bullets_with_status(bullets: &Vec<Bullet>, s: BulletStatus) -> (r: Vec<Bullet>)
    ensures
        bullets_view(r@) == only_status(bullets_view(bullets@), s),
{
    let ghost bs = bullets_view(bullets@);
    let mut r: Vec<Bullet> = Vec::new();
    let mut k: usize = 0;
    while k < bullets.len()
        invariant
            k <= bullets.len(),
            bs == bullets_view(bullets@),
            bullets_view(r@) == only_status(bs.take(k as int), s),
        decreases bullets.len() - k,
    {
        let ghost before = r@;
        assert(bs.take(k + 1).drop_last() =~= bs.take(k as int));
        assert(bs.take(k + 1).last() == bs[k as int]);
        if bullets[k].status == s {
            r.push(copy_bullet(&bullets[k]));
            assert(bullets_view(r@) =~= bullets_view(before).push(bs[k as int]));
        }
        k = k + 1;
    }
    assert(bs.take(bullets.len() as int) =~= bs);
    r
}

/// The status at position `k` of the group order.
fn group_status(k: usize) -> (r: BulletStatus)
    requires
        k < 5,
    ensures
        r == group_order()[k as int],
{
    match k {
        0 => BulletStatus::Open,
        1 => BulletStatus::Done,
        2 => BulletStatus::Migrated,
        3 => BulletStatus::Cancelled,
        _ => BulletStatus::Backlogged,
    }
}

/// The dates `k` days before `d`, for `k` = 0, 1, ...
pub open spec fn days_back(d: Date, k: nat) -> Option<Date>
    decreases k,
{
    if k == 0 {
        Some(d)
    } else {
        match days_back(d, (k - 1) as nat) {
            Some(e) => crate::date::prev_day(e),
            None => None,
        }
    }
}

/// Today and the `n - 1` days before it, newest first; fewer when the
/// calendar begins sooner.
pub fn lookback_dates(today: Date, n: u32) -> (r: Vec<Date>)
    requires
        today.valid(),
    ensures
        r.len() <= n,
        forall|i: int| 0 <= i < r.len() ==> days_back(today, i as nat) == Some(#[trigger] r@[i]),
        r.len() < n ==> days_back(today, r.len() as nat) is None,
{
    let mut r: Vec<Date> = Vec::new();
    if n == 0 {
        return r;
    }
    let mut d = today;
    r.push(d);
    while r.len() < n as usize
        invariant
            1 <= r.len() <= n,
            d.valid(),
            d == r@[r.len() - 1],
            forall|i: int| 0 <= i < r.len() ==> days_back(today, i as nat) == Some(#[trigger] r@[i]),
        decreases n - r.len(),
    {
        proof {
            crate::date::lemma_prev_day_valid(d);
            assert(days_back(today, r.len() as nat) == crate::date::prev_day(d));
        }
        match d.pred_opt() {
            Some(p) => {
                d = p;
                r.push(d);
            },
            None => {
                return r;
            },
        }
    }
    r
}

impl DailyLog {
    /// Replace the text and the notes of the bullet `id`, each where a new
    /// one is given.
    pub fn update_bullet(
        &mut self,
        id: &str,
        new_text: Option<String>,
        new_notes: Option<Vec<String>>,
    ) -> (r: Result<Bullet, Error>)
        ensures
            (bullet_result(r), final(self)@) == edit_spec(
                old(self)@,
                id@,
                |b: BulletView| edited(b, opt_string_view(new_text), opt_strings_view(new_notes)),
            ),
    {
        let ghost old_bs = self@.bullets;
        let ghost t = opt_string_view(new_text);
        let ghost ns = opt_strings_view(new_notes);
        let i = position_of(&self.bullets, id);
        proof {
            lemma_index_of(old_bs, id@);
        }
        if i == self.bullets.len() {
            return Err(self.not_found_error(id));
        }
        match new_text {
            Some(text) => {
                self.bullets[i].text = text;
            },
            None => {},
        }
        match new_notes {
            Some(notes) => {
                self.bullets[i].notes = notes;
            },
            None => {},
        }
        let b = copy_bullet(&self.bullets[i]);
        proof {
            assert(bullets_view(self.bullets@) =~= old_bs.update(
                i as int,
                edited(old_bs[i as int], t, ns),
            ));
        }
        Ok(b)
    }

    /// Add a note line at the end of the notes of the bullet `id`.
    pub fn append_note(&mut self, id: &str, note: String) -> (r: Result<Bullet, Error>)
        ensures
            (bullet_result(r), final(self)@) == edit_spec(
                old(self)@,
                id@,
                |b: BulletView| edited(b, None, Some(b.notes.push(note@))),
            ),
    {
        let ghost old_bs = self@.bullets;
        let ghost n = note@;
        let i = position_of(&self.bullets, id);
        proof {
            lemma_index_of(old_bs, id@);
        }
        if i == self.bullets.len() {
            return Err(self.not_found_error(id));
        }
        let mut notes = copy_strings(&self.bullets[i].notes);
        notes.push(note);
        self.bullets[i].notes = notes;
        let b = copy_bullet(&self.bullets[i]);
        proof {
            assert(strings_view(self.bullets@[i as int].notes@) =~= old_bs[i as int].notes.push(n));
            assert(bullets_view(self.bullets@) =~= old_bs.update(
                i as int,
                edited(old_bs[i as int], None, Some(old_bs[i as int].notes.push(n))),
            ));
        }
        Ok(b)
    }

    /// Replace all notes of the bullet `id`.
    pub fn update_notes(&mut self, id: &str, notes: Vec<String>) -> (r: Result<Bullet, Error>)
        ensures
            (bullet_result(r), final(self)@) == edit_spec(
                old(self)@,
                id@,
                |b: BulletView| edited(b, None, Some(strings_view(notes@))),
            ),
    {
        self.update_bullet(id, None, Some(notes))
    }

    /// Remove all notes of the bullet `id`.
    pub fn clear_notes(&mut self, id: &str) -> (r: Result<Bullet, Error>)
        ensures
            (bullet_result(r), final(self)@) == edit_spec(
                old(self)@,
                id@,
                |b: BulletView| edited(b, None, Some(Seq::<Seq<char>>::empty())),
            ),
    {
        let r = self.update_bullet(id, None, Some(Vec::new()));
        proof {
            assert(strings_view(Seq::<String>::empty()) =~= Seq::<Seq<char>>::empty());
        }
        r
    }

    /// Remove the bullet `id` from the log.
    pub fn delete_bullet(&mut self, id: &str) -> (r: Result<(), Error>)
        ensures
            (unit_result(r), final(self)@) == delete_spec(old(self)@, id@),
    {
        let ghost old_bs = self@.bullets;
        let i = position_of(&self.bullets, id);
        proof {
            lemma_index_of(old_bs, id@);
        }
        if i == self.bullets.len() {
            return Err(self.not_found_error(id));
        }
        let _removed = self.bullets.remove(i);
        proof {
            assert(bullets_view(self.bullets@) =~= old_bs.remove(i as int));
        }
        Ok(())
    }

    /// Move the bullet `id` to position `pos`, or to the end when `pos` is
    /// past it.
    pub fn move_bullet_to(&mut self, id: &str, pos: usize) -> (r: Result<(), Error>)
        ensures
            (unit_result(r), final(self)@) == move_to_spec(old(self)@, id@, pos as int),
    {
        let ghost old_bs = self@.bullets;
        let i = position_of(&self.bullets, id);
        proof {
            lemma_index_of(old_bs, id@);
        }
        if i == self.bullets.len() {
            return Err(self.not_found_error(id));
        }
        let b = self.bullets.remove(i);
        let ghost rest = bullets_view(self.bullets@);
        proof {
            assert(rest =~= old_bs.remove(i as int));
        }
        let p = if pos < self.bullets.len() {
            pos
        } else {
            self.bullets.len()
        };
        self.bullets.insert(p, b);
        proof {
            assert(bullets_view(self.bullets@) =~= rest.insert(p as int, old_bs[i as int]));
        }
        Ok(())
    }

    /// Move the bullet `id` by `delta` places (up when negative), stopping
    /// at either end.
    pub fn move_bullet(&mut self, id: &str, delta: isize) -> (r: Result<(), Error>)
        ensures
            (unit_result(r), final(self)@) == move_spec(old(self)@, id@, delta as int),
    {
        let ghost old_bs = self@.bullets;
        let i = position_of(&self.bullets, id);
        proof {
            lemma_index_of(old_bs, id@);
        }
        if i == self.bullets.len() {
            return Err(self.not_found_error(id));
        }
        let last = self.bullets.len() - 1;
        let target: usize = if delta >= 0 {
            let d = delta as usize;
            if d >= last - i {
                last
            } else {
                i + d
            }
        } else {
            let back: i128 = 0 - (delta as i128);
            if back >= i as i128 {
                0
            } else {
                i - (back as usize)
            }
        };
        assert(target == clamp(i + delta, 0, old_bs.len() - 1));
        self.move_bullet_to(id, target)
    }

    /// The open bullets of the day, in their order.
    pub fn daily_review(&self) -> (r: Vec<Bullet>)
        ensures
            bullets_view(r@) == only_status(self@.bullets, BulletStatus::Open),
    {
        bullets_with_status(&self.bullets, BulletStatus::Open)
    }

    /// The bullets of the day, all of them or those with one status.
    pub fn list_bullets(&self, status_filter: Option<BulletStatus>) -> (r: Vec<Bullet>)
        ensures
            bullets_view(r@) == match status_filter {
                Some(s) => only_status(self@.bullets, s),
                None => self@.bullets,
            },
    {
        match status_filter {
            Some(s) => bullets_with_status(&self.bullets, s),
            None => crate::model::copy_bullets(&self.bullets),
        }
    }

    /// The bullets of the day grouped by status in the order Open, Done,
    /// Migrated, Cancelled, Backlogged; empty groups are left out.
    pub fn list_bullets_grouped(&self) -> (r: Vec<(BulletStatus, Vec<Bullet>)>)
        ensures
            groups_view(r@) == grouped(self@.bullets),
    {
        let ghost bs = self@.bullets;
        let mut r: Vec<(BulletStatus, Vec<Bullet>)> = Vec::new();
        let mut k: usize = 0;
        while k < 5
            invariant
                k <= 5,
                bs == self@.bullets,
                groups_view(r@) == groups_upto(bs, group_order(), k as int),
            decreases 5 - k,
        {
            let s = group_status(k);
            let g = bullets_with_status(&self.bullets, s);
            let ghost before = r@;
            if g.len() > 0 {
                r.push((s, g));
                assert(groups_view(r@) =~= groups_view(before).push((s, only_status(bs, s))));
            }
            k = k + 1;
        }
        r
    }
}

// ---------------------------------------------------------------------------
// Migration to another day or to the backlog, and back

/// The name of the file of the daily log of `d`.
pub open spec fn daily_file_name(d: Date) -> Seq<char> {
    date_text(d) + ".md"@
}

/// The name of the backlog file.
pub open spec fn backlog_file_name() -> Seq<char> {
    "backlog.md"@
}

pub fn daily_file_name_of(d: Date) -> (r: String)
    ensures
        r@ == daily_file_name(d),
{
    let mut r = format_date(d);
    r.append(".md");
    r
}

pub fn backlog_file_name_of() -> (r: String)
    ensures
        r@ == backlog_file_name(),
{
    String::from_str("backlog.md")
}

/// The error when every ID of the file `path` is taken: the ID that was
/// tried, which is a valid one.
pub open spec fn ids_exhausted_error(e: ErrorView, path: Seq<char>) -> bool {
    e matches ErrorView::DuplicateId { id, path: p } && p == path && is_valid_id(id)
}

/// What moving the bullet `id` out of `log` checks first: nothing when the
/// bullet is there and open, else the error. `to` is the status it would get.
pub open spec fn transfer_check(log: DailyLogView, id: Seq<char>, to: BulletStatus) -> Option<
    ErrorView,
> {
    let i = index_of(log.bullets, id);
    if i >= log.bullets.len() {
        Some(not_found(date_text(log.date), id))
    } else if log.bullets[i].status != BulletStatus::Open {
        Some(
            ErrorView::InvalidStatusTransition {
                from: status_name(log.bullets[i].status),
                to: status_name(to),
            },
        )
    } else {
        None
    }
}

/// The bullet that a migration leaves behind: its new status and where it went.
pub open spec fn sent_bullet(b: BulletView, to: BulletStatus, link: MigrationToView) -> BulletView {
    BulletView {
        id: b.id,
        status: to,
        text: b.text,
        notes: b.notes,
        migrated_to: Some(link),
        migrated_from: b.migrated_from,
    }
}

/// The bullet that a migration creates: open, the same text, no notes, and
/// where it came from.
pub open spec fn arrived_bullet(b: BulletView, source_date: Date, fresh: Seq<char>) -> BulletView {
    BulletView {
        id: fresh,
        status: BulletStatus::Open,
        text: b.text,
        notes: seq![],
        migrated_to: None,
        migrated_from: Some(MigrationFromView { source_date, source_id: b.id }),
    }
}

/// Moving the open bullet `id` of `src` to the bullets `dest` under the new
/// ID `fresh`: the source bullet as it is left, the new bullet, the new
/// source log and the new destination bullets.
pub open spec fn transfer_spec(
    src: DailyLogView,
    dest: Seq<BulletView>,
    id: Seq<char>,
    fresh: Seq<char>,
    target: MigrationTarget,
    to: BulletStatus,
) -> (BulletView, BulletView, DailyLogView, Seq<BulletView>) {
    let i = index_of(src.bullets, id);
    let sb = sent_bullet(src.bullets[i], to, MigrationToView { target_date: target, target_id: fresh });
    let nb = arrived_bullet(src.bullets[i], src.date, fresh);
    (sb, nb, with_bullets(src, src.bullets.update(i, sb)), dest.push(nb))
}

/// Migrating the bullet `id` of `src` to the log `tgt` under the new ID `fresh`.
pub open spec fn migrate_spec(src: DailyLogView, tgt: DailyLogView, id: Seq<char>, fresh: Seq<char>) -> (
    BulletView,
    BulletView,
    DailyLogView,
    DailyLogView,
) {
    let t = transfer_spec(
        src,
        tgt.bullets,
        id,
        fresh,
        MigrationTarget::Date(tgt.date),
        BulletStatus::Migrated,
    );
    (t.0, t.1, t.2, with_bullets(tgt, t.3))
}

/// Migrating the bullet `id` of `log` to the same day under the new ID
/// `fresh`: the bullet as it is left, its copy, and the log holding both.
pub open spec fn migrate_within_spec(log: DailyLogView, id: Seq<char>, fresh: Seq<char>) -> (
    BulletView,
    BulletView,
    DailyLogView,
) {
    let t = migrate_spec(log, log, id, fresh);
    (t.0, t.1, with_bullets(log, t.2.bullets.push(t.1)))
}

/// The bullets of `bs` without those with ID `id`.
pub open spec fn without_id(bs: Seq<BulletView>, id: Seq<char>) -> Seq<BulletView>
    decreases bs.len(),
{
    if bs.len() == 0 {
        seq![]
    } else {
        let rest = without_id(bs.drop_last(), id);
        if bs.last().id == id {
            rest
        } else {
            rest.push(bs.last())
        }
    }
}

pub open spec fn no_link_detail(date: Date, id: Seq<char>) -> Seq<char> {
    "source bullet "@ + date_text(date) + "/"@ + id + " has no valid migration-to link"@
}

pub open spec fn unmigrate_name() -> Seq<char> {
    "open (unmigrate)"@
}

/// Where unmigrating the bullet `id` of `log` finds its target: the day and
/// the ID, or the error.
pub open spec fn unmigrate_target_spec(log: DailyLogView, id: Seq<char>) -> Result<
    (Date, Seq<char>),
    ErrorView,
> {
    let i = index_of(log.bullets, id);
    if i >= log.bullets.len() {
        Err(not_found(date_text(log.date), id))
    } else if log.bullets[i].status != BulletStatus::Migrated {
        Err(
            ErrorView::InvalidStatusTransition {
                from: status_name(log.bullets[i].status),
                to: unmigrate_name(),
            },
        )
    } else {
        match log.bullets[i].migrated_to {
            Some(t) => match t.target_date {
                MigrationTarget::Date(d) => Ok((d, t.target_id)),
                MigrationTarget::Backlog => Err(
                    ErrorView::InvalidMigrationLink { value: no_link_detail(log.date, id) },
                ),
            },
            None => Err(ErrorView::InvalidMigrationLink { value: no_link_detail(log.date, id) }),
        }
    }
}

/// A bullet set back to open, with no migration links.
pub open spec fn reverted(b: BulletView) -> BulletView {
    BulletView {
        id: b.id,
        status: BulletStatus::Open,
        text: b.text,
        notes: b.notes,
        migrated_to: None,
        migrated_from: None,
    }
}

/// A migrated copy is untouched while it still has the text of the bullet
/// it came from, no notes, and is open.
pub open spec fn target_untouched(source: BulletView, target: BulletView) -> bool {
    &&& target.text == source.text
    &&& target.notes.len() == 0
    &&& target.status == BulletStatus::Open
}

/// Unmigrating the bullet `id` of `src`, whose target is in `tgt`: the
/// outcome and the two new logs, or the error. A target that was modified
/// (new text, notes, another status) is cancelled, an untouched one is
/// removed; a target that moved on blocks.
pub open spec fn unmigrate_spec(src: DailyLogView, tgt: DailyLogView, id: Seq<char>) -> Result<
    (UnmigrateOutcome, DailyLogView, DailyLogView),
    ErrorView,
> {
    match unmigrate_target_spec(src, id) {
        Err(e) => Err(e),
        Ok((d, tid)) => {
            let j = index_of(tgt.bullets, tid);
            if j >= tgt.bullets.len() {
                Err(not_found(date_text(d), tid))
            } else if tgt.bullets[j].status == BulletStatus::Migrated {
                Err(ErrorView::UnmigrateBlockedByChain { date: date_text(src.date), id })
            } else {
                let i = index_of(src.bullets, id);
                let src2 = with_bullets(src, src.bullets.update(i, reverted(src.bullets[i])));
                if !target_untouched(src.bullets[i], tgt.bullets[j]) {
                    Ok(
                        (
                            UnmigrateOutcome::TargetCancelled,
                            src2,
                            with_bullets(
                                tgt,
                                tgt.bullets.update(
                                    j,
                                    with_status(tgt.bullets[j], BulletStatus::Cancelled),
                                ),
                            ),
                        ),
                    )
                } else {
                    Ok(
                        (
                            UnmigrateOutcome::TargetDeleted,
                            src2,
                            with_bullets(tgt, without_id(tgt.bullets, tid)),
                        ),
                    )
                }
            }
        }
    }
}

/// Unmigrating the bullet `id` of `log` whose copy is in the same log: the
/// bullet reverted and its copy removed or cancelled as `unmigrate_spec`
/// decides, both in the one log.
pub open spec fn unmigrate_within_spec(log: DailyLogView, id: Seq<char>) -> Result<
    (UnmigrateOutcome, DailyLogView),
    ErrorView,
> {
    match unmigrate_spec(log, log, id) {
        Err(e) => Err(e),
        Ok((o, s2, _)) => {
            let tid = unmigrate_target_spec(log, id)->Ok_0.1;
            let j = index_of(log.bullets, tid);
            match o {
                UnmigrateOutcome::TargetCancelled => Ok(
                    (
                        o,
                        with_bullets(
                            log,
                            s2.bullets.update(j, with_status(log.bullets[j], BulletStatus::Cancelled)),
                        ),
                    ),
                ),
                UnmigrateOutcome::TargetDeleted => Ok(
                    (o, with_bullets(log, without_id(s2.bullets, tid))),
                ),
            }
        },
    }
}

/// The bullets of `bullets` without those with ID `id`, copied.
fn bullets_without_id(bullets: &Vec<Bullet>, id: &String) -> (r: Vec<Bullet>)
    ensures
        bullets_view(r@) == without_id(bullets_view(bullets@), id@),
{
    let ghost bs = bullets_view(bullets@);
    let mut r: Vec<Bullet> = Vec::new();
    let mut k: usize = 0;
    while k < bullets.len()
        invariant
            k <= bullets.len(),
            bs == bullets_view(bullets@),
            bullets_view(r@) == without_id(bs.take(k as int), id@),
        decreases bullets.len() - k,
    {
        let ghost before = r@;
        assert(bs.take(k + 1).drop_last() =~= bs.take(k as int));
        assert(bs.take(k + 1).last() == bs[k as int]);
        if !(bullets[k].id == *id) {
            r.push(copy_bullet(&bullets[k]));
            assert(bullets_view(r@) =~= bullets_view(before).push(bs[k as int]));
        }
        k = k + 1;
    }
    assert(bs.take(bullets.len() as int) =~= bs);
    r
}

impl DailyLog {
    /// Moves the open bullet `source_id` out of this log into `dest`: it
    /// gets status `to` and a link to `target`; `dest` gets an open copy
    /// under a fresh ID. `dest_file` names the destination in the error for
    /// a file whose IDs are all taken.
    fn transfer(
        &mut self,
        dest: &mut Vec<Bullet>,
        source_id: &str,
        target: MigrationTarget,
        to: BulletStatus,
        dest_file: String,
    ) -> (r: Result<(Bullet, Bullet), Error>)
        ensures
            match transfer_check(old(self)@, source_id@, to) {
                Some(e) => r matches Err(x) && x@ == e && final(self)@ == old(self)@ && final(dest)@
                    == old(dest)@,
                None => if all_ids_used(bullets_view(old(dest)@)) {
                    r matches Err(x) && ids_exhausted_error(x@, dest_file@) && final(self)@ == old(self)@ && final(dest)@ == old(dest)@
                } else {
                    r matches Ok((sb, nb)) && is_valid_id(nb@.id) && !id_used(
                        bullets_view(old(dest)@),
                        nb@.id,
                    ) && (sb@, nb@, final(self)@, bullets_view(final(dest)@)) == transfer_spec(
                        old(self)@,
                        bullets_view(old(dest)@),
                        source_id@,
                        nb@.id,
                        target,
                        to,
                    )
                },
            },
    {
        let ghost src = self@;
        let ghost dst = bullets_view(dest@);
        let i = position_of(&self.bullets, source_id);
        proof {
            lemma_index_of(src.bullets, source_id@);
        }
        if i == self.bullets.len() {
            return Err(self.not_found_error(source_id));
        }
        let st = self.bullets[i].status;
        if st != BulletStatus::Open {
            return Err(
                Error::InvalidStatusTransition {
                    from: String::from_str(st.display_name()),
                    to: String::from_str(to.display_name()),
                },
            );
        }
        let fresh = match generate_unique_id(dest) {
            Ok(f) => f,
            Err(c) => {
                return Err(Error::DuplicateId { id: c, path: dest_file });
            },
        };
        let nb = Bullet {
            id: fresh.clone(),
            status: BulletStatus::Open,
            text: self.bullets[i].text.clone(),
            notes: Vec::new(),
            migrated_to: None,
            migrated_from: Some(
                MigrationFrom { source_date: self.date, source_id: self.bullets[i].id.clone() },
            ),
        };
        self.bullets[i].status = to;
        self.bullets[i].migrated_to = Some(MigrationTo { target_date: target, target_id: fresh });
        let sb = copy_bullet(&self.bullets[i]);
        dest.push(copy_bullet(&nb));
        proof {
            let t = transfer_spec(src, dst, source_id@, nb@.id, target, to);
            assert(nb@.notes =~= Seq::<Seq<char>>::empty());
            assert(nb@ == t.1);
            assert(sb@ == t.0);
            assert(bullets_view(self.bullets@) =~= t.2.bullets);
            assert(bullets_view(dest@) =~= t.3);
        }
        Ok((sb, nb))
    }

    /// Migrate the open bullet `source_id` to the day of `target`: it turns
    /// migrated with a link to its copy, and `target` gets an open copy
    /// under a fresh ID with a link back.
    pub fn migrate_task(&mut self, target: &mut DailyLog, source_id: &str) -> (r: Result<
        (Bullet, Bullet),
        Error,
    >)
        ensures
            match transfer_check(old(self)@, source_id@, BulletStatus::Migrated) {
                Some(e) => r matches Err(x) && x@ == e && final(self)@ == old(self)@ && final(target)@ == old(target)@,
                None => if all_ids_used(old(target)@.bullets) {
                    r matches Err(x) && ids_exhausted_error(
                        x@,
                        daily_file_name(old(target)@.date),
                    ) && final(self)@ == old(self)@ && final(target)@ == old(target)@
                } else {
                    r matches Ok((sb, nb)) && is_valid_id(nb@.id) && !id_used(
                        old(target)@.bullets,
                        nb@.id,
                    ) && (sb@, nb@, final(self)@, final(target)@) == migrate_spec(
                        old(self)@,
                        old(target)@,
                        source_id@,
                        nb@.id,
                    )
                },
            },
    {
        let file = daily_file_name_of(target.date);
        let date = target.date;
        self.transfer(
            &mut target.bullets,
            source_id,
            MigrationTarget::Date(date),
            BulletStatus::Migrated,
            file,
        )
    }

    /// Migrate the open bullet `source_id` to this same day: it turns
    /// migrated with a link to its copy, and the copy, open under a fresh ID
    /// with a link back, is added to this log.
    pub fn migrate_within(&mut self, source_id: &str) -> (r: Result<(Bullet, Bullet), Error>)
        ensures
            match transfer_check(old(self)@, source_id@, BulletStatus::Migrated) {
                Some(e) => r matches Err(x) && x@ == e && final(self)@ == old(self)@,
                None => if all_ids_used(old(self)@.bullets) {
                    r matches Err(x) && ids_exhausted_error(x@, daily_file_name(old(self)@.date))
                        && final(self)@ == old(self)@
                } else {
                    r matches Ok((sb, nb)) && is_valid_id(nb@.id) && !id_used(
                        old(self)@.bullets,
                        nb@.id,
                    ) && (sb@, nb@, final(self)@) == migrate_within_spec(
                        old(self)@,
                        source_id@,
                        nb@.id,
                    )
                },
            },
    {
        let ghost s0 = self@;
        let mut copy = DailyLog { date: self.date, bullets: crate::model::copy_bullets(&self.bullets) };
        assert(copy@ == s0);
        match self.migrate_task(&mut copy, source_id) {
            Ok((sb, nb)) => {
                let ghost s1 = self@;
                self.bullets.push(copy_bullet(&nb));
                assert(self@.bullets =~= s1.bullets.push(nb@));
                Ok((sb, nb))
            },
            Err(e) => Err(e),
        }
    }

    /// Move the open bullet `source_id` to the backlog: it turns backlogged
    /// with a link to its copy, and the backlog gets an open copy under a
    /// fresh ID with a link back.
    pub fn backlog_task(&mut self, backlog: &mut BacklogLog, source_id: &str) -> (r: Result<
        (Bullet, Bullet),
        Error,
    >)
        ensures
            match transfer_check(old(self)@, source_id@, BulletStatus::Backlogged) {
                Some(e) => r matches Err(x) && x@ == e && final(self)@ == old(self)@ && final(backlog)@ == old(backlog)@,
                None => if all_ids_used(old(backlog)@) {
                    r matches Err(x) && ids_exhausted_error(x@, backlog_file_name()) && final(self)@ == old(self)@ && final(backlog)@ == old(backlog)@
                } else {
                    r matches Ok((sb, nb)) && is_valid_id(nb@.id) && !id_used(
                        old(backlog)@,
                        nb@.id,
                    ) && (sb@, nb@, final(self)@, final(backlog)@) == transfer_spec(
                        old(self)@,
                        old(backlog)@,
                        source_id@,
                        nb@.id,
                        MigrationTarget::Backlog,
                        BulletStatus::Backlogged,
                    )
                },
            },
    {
        let file = backlog_file_name_of();
        self.transfer(
            &mut backlog.bullets,
            source_id,
            MigrationTarget::Backlog,
            BulletStatus::Backlogged,
            file,
        )
    }

    /// Where the migrated bullet `source_id` went: the day and the ID that
    /// unmigrating it has to look up.
    pub fn unmigrate_target(&self, source_id: &str) -> (r: Result<(Date, String), Error>)
        ensures
            match r {
                Ok((d, t)) => unmigrate_target_spec(self@, source_id@) == Ok::<(Date, Seq<char>), ErrorView>((d, t@)),
                Err(e) => unmigrate_target_spec(self@, source_id@) == Err::<(Date, Seq<char>), ErrorView>(e@),
            },
    {
        let i = position_of(&self.bullets, source_id);
        proof {
            lemma_index_of(self@.bullets, source_id@);
        }
        if i == self.bullets.len() {
            return Err(self.not_found_error(source_id));
        }
        let st = self.bullets[i].status;
        if st != BulletStatus::Migrated {
            proof {
                reveal_strlit("open (unmigrate)");
            }
            return Err(
                Error::InvalidStatusTransition {
                    from: String::from_str(st.display_name()),
                    to: String::from_str("open (unmigrate)"),
                },
            );
        }
        match &self.bullets[i].migrated_to {
            Some(t) => match t.target_date {
                MigrationTarget::Date(d) => {
                    return Ok((d, t.target_id.clone()));
                },
                MigrationTarget::Backlog => {},
            },
            None => {},
        }
        let mut detail = String::from_str("source bullet ");
        detail.append(format_date(self.date).as_str());
        detail.append("/");
        detail.append(source_id);
        detail.append(" has no valid migration-to link");
        Err(Error::InvalidMigrationLink { value: detail })
    }

    /// Reverse the migration of the bullet `source_id` of this log, whose
    /// copy is in `target`: the bullet is open again without links; its copy
    /// is removed while untouched (same text, no notes, open) and cancelled
    /// once modified. A copy that was itself migrated blocks.
    pub fn unmigrate_task(&mut self, target: &mut DailyLog, source_id: &str) -> (r: Result<
        UnmigrateOutcome,
        Error,
    >)
        ensures
            match r {
                Ok(o) => unmigrate_spec(old(self)@, old(target)@, source_id@) == Ok::<
                    (UnmigrateOutcome, DailyLogView, DailyLogView),
                    ErrorView,
                >((o, final(self)@, final(target)@)),
                Err(e) => unmigrate_spec(old(self)@, old(target)@, source_id@) == Err::<
                    (UnmigrateOutcome, DailyLogView, DailyLogView),
                    ErrorView,
                >(e@) && final(self)@ == old(self)@ && final(target)@ == old(target)@,
            },
    {
        let ghost src = self@;
        let ghost tgt = target@;
        let (d, tid) = match self.unmigrate_target(source_id) {
            Ok(p) => p,
            Err(e) => {
                return Err(e);
            },
        };
        let j = position_of(&target.bullets, tid.as_str());
        proof {
            lemma_index_of(tgt.bullets, tid@);
        }
        if j == target.bullets.len() {
            return Err(Error::BulletNotFound { location: format_date(d), id: tid });
        }
        if target.bullets[j].status == BulletStatus::Migrated {
            return Err(
                Error::UnmigrateBlockedByChain {
                    date: format_date(self.date),
                    id: String::from_str(source_id),
                },
            );
        }
        let i = position_of(&self.bullets, source_id);
        proof {
            lemma_index_of(src.bullets, source_id@);
        }
        let untouched = target.bullets[j].text == self.bullets[i].text
            && target.bullets[j].notes.len() == 0 && target.bullets[j].status
            == BulletStatus::Open;
        let outcome = if !untouched {
            target.bullets[j].status = BulletStatus::Cancelled;
            proof {
                assert(bullets_view(target.bullets@) =~= tgt.bullets.update(
                    j as int,
                    with_status(tgt.bullets[j as int], BulletStatus::Cancelled),
                ));
            }
            UnmigrateOutcome::TargetCancelled
        } else {
            let kept = bullets_without_id(&target.bullets, &tid);
            target.bullets = kept;
            UnmigrateOutcome::TargetDeleted
        };
        self.bullets[i].status = BulletStatus::Open;
        self.bullets[i].migrated_to = None;
        self.bullets[i].migrated_from = None;
        proof {
            assert(bullets_view(self.bullets@) =~= src.bullets.update(
                i as int,
                reverted(src.bullets[i as int]),
            ));
        }
        Ok(outcome)
    }
}

impl DailyLog {
    /// Reverse the migration of the bullet `source_id` whose copy is in this
    /// same log: both changes of `unmigrate_task` made to the one log.
    pub fn unmigrate_within(&mut self, source_id: &str) -> (r: Result<UnmigrateOutcome, Error>)
        ensures
            match r {
                Ok(o) => unmigrate_within_spec(old(self)@, source_id@) == Ok::<
                    (UnmigrateOutcome, DailyLogView),
                    ErrorView,
                >((o, final(self)@)),
                Err(e) => unmigrate_within_spec(old(self)@, source_id@) == Err::<
                    (UnmigrateOutcome, DailyLogView),
                    ErrorView,
                >(e@) && final(self)@ == old(self)@,
            },
    {
        let ghost log = self@;
        let tid = match self.unmigrate_target(source_id) {
            Ok((_, t)) => t,
            Err(e) => {
                return Err(e);
            },
        };
        let mut copy = DailyLog { date: self.date, bullets: crate::model::copy_bullets(&self.bullets) };
        assert(copy@ == log);
        let o = match self.unmigrate_task(&mut copy, source_id) {
            Ok(o) => o,
            Err(e) => {
                return Err(e);
            },
        };
        let ghost s2 = self@;
        proof {
            let i = index_of(log.bullets, source_id@);
            lemma_index_of(log.bullets, source_id@);
            lemma_index_of(log.bullets, tid@);
            crate::laws::lemma_index_of_same_ids(s2.bullets, log.bullets, tid@);
            assert(s2.bullets =~= log.bullets.update(i, reverted(log.bullets[i])));
        }
        match o {
            UnmigrateOutcome::TargetCancelled => {
                let j = position_of(&self.bullets, tid.as_str());
                self.bullets[j].status = BulletStatus::Cancelled;
                proof {
                    let jj = index_of(log.bullets, tid@);
                    assert(j == jj);
                    assert(s2.bullets[jj] == log.bullets[jj]);
                    assert(bullets_view(self.bullets@) =~= s2.bullets.update(
                        jj,
                        with_status(log.bullets[jj], BulletStatus::Cancelled),
                    ));
                }
            },
            UnmigrateOutcome::TargetDeleted => {
                let kept = bullets_without_id(&self.bullets, &tid);
                self.bullets = kept;
            },
        }
        Ok(o)
    }
}

// ---------------------------------------------------------------------------
// Adding bullets

/// A new bullet: open, with no migration links.
pub open spec fn new_bullet(id: Seq<char>, text: Seq<char>, notes: Seq<Seq<char>>) -> BulletView {
    BulletView {
        id,
        status: BulletStatus::Open,
        text,
        notes,
        migrated_to: None,
        migrated_from: None,
    }
}

/// The day a migration goes to when none is given: the next day, or the
/// same day at the end of the calendar.
pub open spec fn default_target(d: Date) -> Date {
    match crate::date::next_day(d) {
        Some(n) => n,
        None => d,
    }
}

/// The day a migration goes to when none is given.
pub fn default_migration_target(source_date: Date) -> (r: Date)
    requires
        source_date.valid(),
    ensures
        r == default_target(source_date),
{
    match source_date.succ_opt() {
        Some(n) => n,
        None => source_date,
    }
}

/// The date given, or today's date on the local clock when none is.
pub fn date_or_today(date: Option<Date>) -> (r: Date)
    ensures
        date matches Some(d) ==> r == d,
        date is None ==> r.valid(),
{
    match date {
        Some(d) => d,
        None => crate::date::today(),
    }
}

impl DailyLog {
    /// Add a new open bullet at the end of the log, under a fresh ID.
    pub fn add_bullet(&mut self, text: String, notes: Vec<String>) -> (r: Result<Bullet, Error>)
        ensures
            if all_ids_used(old(self)@.bullets) {
                r matches Err(x) && ids_exhausted_error(x@, daily_file_name(old(self)@.date))
                    && final(self)@ == old(self)@
            } else {
                r matches Ok(b) && is_valid_id(b@.id) && !id_used(old(self)@.bullets, b@.id) && b@
                    == new_bullet(b@.id, text@, strings_view(notes@)) && final(self)@
                    == with_bullets(old(self)@, old(self)@.bullets.push(b@))
            },
    {
        let ghost old_bs = self@.bullets;
        let id = match generate_unique_id(&self.bullets) {
            Ok(id) => id,
            Err(c) => {
                return Err(Error::DuplicateId { id: c, path: daily_file_name_of(self.date) });
            },
        };
        let bullet = Bullet {
            id,
            status: BulletStatus::Open,
            text,
            notes,
            migrated_to: None,
            migrated_from: None,
        };
        self.bullets.push(copy_bullet(&bullet));
        proof {
            assert(bullets_view(self.bullets@) =~= old_bs.push(bullet@));
        }
        Ok(bullet)
    }
}

// ---------------------------------------------------------------------------
// Migration chains

/// Where the bullet `id` of `log` came from, when it was migrated from
/// another day.
pub open spec fn origin_spec(log: DailyLogView, id: Seq<char>) -> Option<(Date, Seq<char>)> {
    let i = index_of(log.bullets, id);
    if i < log.bullets.len() {
        match log.bullets[i].migrated_from {
            Some(f) => Some((f.source_date, f.source_id)),
            None => None,
        }
    } else {
        None
    }
}

/// One link of a migration chain in `log`: the entry for the bullet `id`
/// (the log's date, the ID, the status and the text) and the day and ID it
/// was migrated to, when it went to another day. Nothing when the log does
/// not hold the bullet.
pub open spec fn chain_step_spec(log: DailyLogView, id: Seq<char>) -> Option<
    ((Date, Seq<char>, BulletStatus, Seq<char>), Option<(Date, Seq<char>)>),
> {
    let i = index_of(log.bullets, id);
    if i < log.bullets.len() {
        let b = log.bullets[i];
        let next = match b.migrated_to {
            Some(t) => match t.target_date {
                MigrationTarget::Date(d) => Some((d, t.target_id)),
                MigrationTarget::Backlog => None,
            },
            None => None,
        };
        Some(((log.date, id, b.status, b.text), next))
    } else {
        None
    }
}

pub open spec fn link_view(l: Option<(Date, String)>) -> Option<(Date, Seq<char>)> {
    match l {
        Some((d, s)) => Some((d, s@)),
        None => None,
    }
}

pub open spec fn step_view(
    r: Option<((Date, String, BulletStatus, String), Option<(Date, String)>)>,
) -> Option<((Date, Seq<char>, BulletStatus, Seq<char>), Option<(Date, Seq<char>)>)> {
    match r {
        Some((e, next)) => Some(((e.0, e.1@, e.2, e.3@), link_view(next))),
        None => None,
    }
}

impl DailyLog {
    /// Where the bullet `id` came from, when it was migrated here from
    /// another day.
    pub fn origin_of(&self, id: &str) -> (r: Option<(Date, String)>)
        ensures
            link_view(r) == origin_spec(self@, id@),
    {
        let i = position_of(&self.bullets, id);
        proof {
            lemma_index_of(self@.bullets, id@);
        }
        if i == self.bullets.len() {
            return None;
        }
        match &self.bullets[i].migrated_from {
            Some(f) => Some((f.source_date, f.source_id.clone())),
            None => None,
        }
    }

    /// The entry of the bullet `id` in a migration chain, and where the
    /// chain goes on.
    pub fn chain_step(&self, id: &str) -> (r: Option<
        ((Date, String, BulletStatus, String), Option<(Date, String)>),
    >)
        ensures
            step_view(r) == chain_step_spec(self@, id@),
    {
        let i = position_of(&self.bullets, id);
        proof {
            lemma_index_of(self@.bullets, id@);
        }
        if i == self.bullets.len() {
            return None;
        }
        let b = &self.bullets[i];
        let next = match &b.migrated_to {
            Some(t) => match t.target_date {
                MigrationTarget::Date(d) => Some((d, t.target_id.clone())),
                MigrationTarget::Backlog => None,
            },
            None => None,
        };
        Some(((self.date, String::from_str(id), b.status, b.text.clone()), next))
    }
}

// ---------------------------------------------------------------------------
// The store

/// `name` inside the directory `dir`.
pub open spec fn join_path(dir: Seq<char>, name: Seq<char>) -> Seq<char> {
    if dir.len() == 0 || dir.last() == '/' {
        dir + name
    } else {
        dir + seq!['/'] + name
    }
}

/// The data store: the directory that holds the journal's files.
pub struct Store {
    data_dir: String,
}

impl Store {
    /// The directory of the store.
    pub closed spec fn dir(&self) -> Seq<char> {
        self.data_dir@
    }

    /// Create a new store pointing at the given data directory.
    pub fn new(data_dir: String) -> (r: Store)
        ensures
            r.dir() == data_dir@,
    {
        Store { data_dir }
    }

    /// The data directory.
    pub fn data_dir(&self) -> (r: &str)
        ensures
            r@ == self.dir(),
    {
        self.data_dir.as_str()
    }

    fn path_of(&self, name: String) -> (r: String)
        ensures
            r@ == join_path(self.dir(), name@),
    {
        let mut r = self.data_dir.clone();
        let ghost d = r@;
        assert(d == self.dir());
        let n = r.as_str().unicode_len();
        if n > 0 && r.as_str().get_char(n - 1) != '/' {
            proof {
                reveal_strlit("/");
            }
            r.append("/");
            assert(r@ == d + seq!['/']);
        }
        r.append(name.as_str());
        r
    }

    /// Path to the daily log file of a date.
    pub fn daily_log_path(&self, date: Date) -> (r: String)
        ensures
            r@ == join_path(self.dir(), daily_file_name(date)),
    {
        self.path_of(daily_file_name_of(date))
    }

    /// Path to the backlog file.
    pub fn backlog_path(&self) -> (r: String)
        ensures
            r@ == join_path(self.dir(), backlog_file_name()),
    {
        self.path_of(backlog_file_name_of())
    }
}

} // verus!
