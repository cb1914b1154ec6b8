//! Work days: the days of the week on which migrated bullets land.

use crate::date::{lemma_next_day_valid, next_day, weekday_number, Date, Weekday};
use vstd::prelude::*;

verus! {

/// The weekday of a date, counted from Monday.
pub open spec fn weekday_of(d: Date) -> int {
    weekday_number(d.year as int, d.month as int, d.day as int)
}

/// Whether `d` falls on one of the weekdays `wd`.
pub open spec fn is_work_day(d: Date, wd: Seq<Weekday>) -> bool {
    exists|k: int| 0 <= k < wd.len() && #[trigger] wd[k].index() == weekday_of(d)
}

/// The date `k` days after `d`, if the calendar reaches it.
pub open spec fn days_after(d: Date, k: nat) -> Option<Date>
    decreases k,
{
    if k == 0 {
        Some(d)
    } else {
        match days_after(d, (k - 1) as nat) {
            Some(e) => next_day(e),
            None => None,
        }
    }
}

/// The first work day after `from` among the next `n` days.
pub open spec fn work_day_within(from: Date, wd: Seq<Weekday>, n: nat) -> Option<Date>
    decreases n,
{
    if n == 0 {
        None
    } else {
        match next_day(from) {
            None => None,
            Some(d) => if is_work_day(d, wd) {
                Some(d)
            } else {
                work_day_within(d, wd, (n - 1) as nat)
            },
        }
    }
}

/// Whether the weekday `w` is one of `work_days`.
fn is_work_weekday(work_days: &[Weekday], w: Weekday) -> (r: bool)
    ensures
        r == exists|k: int| 0 <= k < work_days@.len() && #[trigger] work_days@[k].index() == w.index(),
{
    let wi = w.num_days_from_monday();
    let mut k: usize = 0;
    while k < work_days.len()
        invariant
            k <= work_days@.len(),
            wi == w.index(),
            forall|m: int| 0 <= m < k ==> #[trigger] work_days@[m].index() != w.index(),
        decreases work_days@.len() - k,
    {
        if work_days[k].num_days_from_monday() == wi {
            return true;
        }
        k = k + 1;
    }
    false
}

/// The `n`-th work day after `from`, if the calendar reaches it.
pub open spec fn nth_work_day(from: Date, wd: Seq<Weekday>, n: nat) -> Option<Date>
    decreases n,
{
    if n == 0 {
        Some(from)
    } else {
        match nth_work_day(from, wd, (n - 1) as nat) {
            Some(d) => work_day_within(d, wd, 7),
            None => None,
        }
    }
}

/// A work day that the calendar reaches was preceded by every earlier one.
pub proof fn lemma_nth_work_day_shorter(from: Date, wd: Seq<Weekday>, n: nat, m: nat)
    requires
        m <= n,
        nth_work_day(from, wd, n) is Some,
    ensures
        nth_work_day(from, wd, m) is Some,
    decreases n - m,
{
    if m < n {
        lemma_nth_work_day_shorter(from, wd, (n - 1) as nat, m);
    }
}

/// Once the calendar has ended, no later step reaches a day.
proof fn lemma_days_after_stays_none(d: Date, k: nat, j: nat)
    requires
        days_after(d, k) is None,
        k <= j,
    ensures
        days_after(d, j) is None,
    decreases j - k,
{
    if k < j {
        lemma_days_after_stays_none(d, k, (j - 1) as nat);
    }
}

/// The first work day after `from`, if one comes before the calendar ends:
/// the weekdays of the next seven days are tried in turn.
pub fn work_day_after(from: Date, work_days: &[Weekday]) -> (r: Option<Date>)
    requires
        from.valid(),
    ensures
        r == work_day_within(from, work_days@, 7),
        r matches Some(d) ==> {
            &&& is_work_day(d, work_days@)
            &&& from.before(d)
            &&& d.valid()
            &&& exists|k: nat|
                1 <= k <= 7 && days_after(from, k) == Some(d) && forall|j: nat|
                    1 <= j < k ==> (#[trigger] days_after(from, j) matches Some(e) && !is_work_day(
                        e,
                        work_days@,
                    ))
        },
        r is None ==> forall|j: nat|
            1 <= j <= 7 ==> (#[trigger] days_after(from, j) matches Some(e) ==> !is_work_day(
                e,
                work_days@,
            )),
{
    let ghost wd = work_days@;
    let mut d = from;
    let mut steps: u32 = 0;
    while steps < 7
        invariant
            steps <= 7,
            wd == work_days@,
            from.valid(),
            d.valid(),
            days_after(from, steps as nat) == Some(d),
            steps == 0 ==> d == from,
            steps > 0 ==> from.before(d),
            work_day_within(from, wd, 7) == work_day_within(d, wd, (7 - steps) as nat),
            forall|j: nat|
                1 <= j <= steps ==> (#[trigger] days_after(from, j) matches Some(e) && !is_work_day(
                    e,
                    wd,
                )),
        decreases 7 - steps,
    {
        proof {
            lemma_next_day_valid(d);
        }
        let n = match d.succ_opt() {
            Some(n) => n,
            None => {
                proof {
                    assert(days_after(from, (steps + 1) as nat) is None);
                    assert forall|j: nat| steps + 1 <= j implies #[trigger] days_after(from, j) is None by {
                        lemma_days_after_stays_none(from, (steps + 1) as nat, j);
                    }
                }
                return None;
            },
        };
        assert(days_after(from, (steps + 1) as nat) == Some(n));
        let w = n.weekday();
        if is_work_weekday(work_days, w) {
            assert(is_work_day(n, wd));
            assert(1 <= (steps + 1) as nat <= 7 && days_after(from, (steps + 1) as nat) == Some(n));
            return Some(n);
        }
        assert(!is_work_day(n, wd));
        d = n;
        steps = steps + 1;
    }
    None
}

/// First date strictly after `from` whose weekday is in `work_days`; it
/// must come before the calendar ends.
pub fn next_work_day(from: Date, work_days: &[Weekday]) -> (r: Date)
    requires
        from.valid(),
        work_day_within(from, work_days@, 7) is Some,
    ensures
        work_day_within(from, work_days@, 7) == Some(r),
        is_work_day(r, work_days@),
        from.before(r),
        r.valid(),
        exists|k: nat| 1 <= k <= 7 && days_after(from, k) == Some(r),
{
    match work_day_after(from, work_days) {
        Some(d) => d,
        None => from,
    }
}

/// The day a migration goes to: the next work day, or the next calendar
/// day when no work day comes before the calendar ends.
pub fn migration_target(from: Date, work_days: &[Weekday]) -> (r: Date)
    requires
        from.valid(),
    ensures
        r == match work_day_within(from, work_days@, 7) {
            Some(d) => d,
            None => crate::ops::default_target(from),
        },
{
    match work_day_after(from, work_days) {
        Some(d) => d,
        None => crate::ops::default_migration_target(from),
    }
}

/// Next `n` upcoming work days starting strictly after `from` (always
/// returns exactly `n`); the `n`-th must come before the calendar ends.
pub fn upcoming_work_days(from: Date, work_days: &[Weekday], n: usize) -> (r: Vec<Date>)
    requires
        from.valid(),
        nth_work_day(from, work_days@, n as nat) is Some,
    ensures
        r.len() == n,
        forall|i: int| 0 <= i < n ==> nth_work_day(from, work_days@, (i + 1) as nat) == Some(
            #[trigger] r@[i],
        ),
        n > 0 ==> work_day_within(from, work_days@, 7) == Some(r@[0]),
        forall|i: int|
            0 < i < n ==> work_day_within(r@[i - 1], work_days@, 7) == Some(#[trigger] r@[i]),
        forall|i: int| 0 <= i < n ==> is_work_day(#[trigger] r@[i], work_days@),
        n > 0 ==> from.before(r@[0]),
        forall|i: int| 0 < i < n ==> (#[trigger] r@[i - 1]).before(r@[i]),
{
    let r = upcoming_work_days_reachable(from, work_days, n);
    proof {
        if r.len() < n {
            lemma_nth_work_day_shorter(from, work_days@, n as nat, (r.len() + 1) as nat);
        }
    }
    r
}

/// Up to `n` upcoming work days after `from`: all `n`, or those that come
/// before the calendar ends.
pub fn upcoming_work_days_reachable(from: Date, work_days: &[Weekday], n: usize) -> (r: Vec<Date>)
    requires
        from.valid(),
    ensures
        r.len() <= n,
        r.len() < n ==> nth_work_day(from, work_days@, (r.len() + 1) as nat) is None,
        forall|i: int| 0 <= i < r.len() ==> nth_work_day(from, work_days@, (i + 1) as nat) == Some(
            #[trigger] r@[i],
        ),
        r.len() > 0 ==> work_day_within(from, work_days@, 7) == Some(r@[0]),
        forall|i: int|
            0 < i < r.len() ==> work_day_within(r@[i - 1], work_days@, 7) == Some(#[trigger] r@[i]),
        forall|i: int| 0 <= i < r.len() ==> is_work_day(#[trigger] r@[i], work_days@),
        r.len() > 0 ==> from.before(r@[0]),
        forall|i: int| 0 < i < r.len() ==> (#[trigger] r@[i - 1]).before(r@[i]),
{
    let ghost wd = work_days@;
    let mut out: Vec<Date> = Vec::new();
    let mut d = from;
    while out.len() < n
        invariant
            out.len() <= n,
            wd == work_days@,
            from.valid(),
            d.valid(),
            nth_work_day(from, wd, out.len() as nat) == Some(d),
            out.len() == 0 ==> d == from,
            out.len() > 0 ==> d == out@[out.len() - 1],
            forall|i: int| 0 <= i < out.len() ==> nth_work_day(from, wd, (i + 1) as nat) == Some(
                #[trigger] out@[i],
            ),
            out.len() > 0 ==> work_day_within(from, wd, 7) == Some(out@[0]),
            out.len() > 0 ==> from.before(out@[0]),
            forall|i: int|
                0 < i < out.len() ==> work_day_within(out@[i - 1], wd, 7) == Some(
                    #[trigger] out@[i],
                ),
            forall|i: int| 0 <= i < out.len() ==> is_work_day(#[trigger] out@[i], wd),
            forall|i: int| 0 < i < out.len() ==> (#[trigger] out@[i - 1]).before(out@[i]),
        decreases n - out.len(),
    {
        let next = match work_day_after(d, work_days) {
            Some(x) => x,
            None => {
                assert(nth_work_day(from, wd, (out.len() + 1) as nat) is None);
                return out;
            },
        };
        proof {
            if out.len() == 0 {
                reveal_with_fuel(nth_work_day, 2);
            }
        }
        out.push(next);
        d = next;
    }
    out
}

/// How many upcoming work days the migrate picker offers.
pub const PICKER_DAYS: usize = 30;

/// `ds` are the work days the migrate picker offers after `from`: the next
/// thirty, or those that come before the calendar ends.
pub open spec fn offered_days(from: Date, wd: Seq<Weekday>, ds: Seq<Date>) -> bool {
    &&& ds.len() <= PICKER_DAYS
    &&& ds.len() < PICKER_DAYS ==> nth_work_day(from, wd, (ds.len() + 1) as nat) is None
    &&& forall|i: int|
        0 <= i < ds.len() ==> nth_work_day(from, wd, (i + 1) as nat) == Some(#[trigger] ds[i])
}

/// The work days the migrate picker offers after `from`.
pub fn picker_days(from: Date, work_days: &[Weekday]) -> (r: Vec<Date>)
    requires
        from.valid(),
    ensures
        offered_days(from, work_days@, r@),
        r.len() > 0 ==> work_day_within(from, work_days@, 7) == Some(r@[0]),
        forall|i: int| 0 <= i < r.len() ==> is_work_day(#[trigger] r@[i], work_days@),
        forall|i: int| 0 < i < r.len() ==> (#[trigger] r@[i - 1]).before(r@[i]),
{
    upcoming_work_days_reachable(from, work_days, PICKER_DAYS)
}

} // verus!
