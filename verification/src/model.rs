//! The data model: bullets, their status, migration references and logs.

use crate::config::IconsConfig;
use crate::date::Date;
use crate::error::{Error, ErrorView};
use crate::text::{trim, trim_bounds, chars_of, string_of};
use vstd::prelude::*;

verus! {

/// The status marker for a bullet, represented as a single emoji.
#[derive(Debug, Clone, Copy, PartialEq, Eq, Structural, Hash)]
pub enum BulletStatus {
    /// 📌 — Open, not yet acted on
    Open,
    /// ✅ — Completed
    Done,
    /// ➡️ — Moved to another day
    Migrated,
    /// ❌ — Dropped
    Cancelled,
    /// 📥 — Moved to backlog
    Backlogged,
}

/// The emoji that stands for a status in the files.
pub open spec fn status_emoji(s: BulletStatus) -> Seq<char> {
    match s {
        BulletStatus::Open => seq!['\u{1F4CC}'],
        BulletStatus::Done => seq!['\u{2705}'],
        BulletStatus::Migrated => seq!['\u{27A1}', '\u{FE0F}'],
        BulletStatus::Cancelled => seq!['\u{274C}'],
        BulletStatus::Backlogged => seq!['\u{1F4E5}'],
    }
}

/// The status an emoji stands for; the arrow is read with or without its
/// variation selector.
pub open spec fn status_of_emoji(t: Seq<char>) -> Option<BulletStatus> {
    if t == seq!['\u{1F4CC}'] {
        Some(BulletStatus::Open)
    } else if t == seq!['\u{2705}'] {
        Some(BulletStatus::Done)
    } else if t == seq!['\u{27A1}', '\u{FE0F}'] || t == seq!['\u{27A1}'] {
        Some(BulletStatus::Migrated)
    } else if t == seq!['\u{274C}'] {
        Some(BulletStatus::Cancelled)
    } else if t == seq!['\u{1F4E5}'] {
        Some(BulletStatus::Backlogged)
    } else {
        None
    }
}

/// The lower-case name of a status.
pub open spec fn status_name(s: BulletStatus) -> Seq<char> {
    match s {
        BulletStatus::Open => seq!['o', 'p', 'e', 'n'],
        BulletStatus::Done => seq!['d', 'o', 'n', 'e'],
        BulletStatus::Migrated => seq!['m', 'i', 'g', 'r', 'a', 't', 'e', 'd'],
        BulletStatus::Cancelled => seq!['c', 'a', 'n', 'c', 'e', 'l', 'l', 'e', 'd'],
        BulletStatus::Backlogged => seq!['b', 'a', 'c', 'k', 'l', 'o', 'g', 'g', 'e', 'd'],
    }
}

pub proof fn lemma_status_emoji_round_trip(s: BulletStatus)
    ensures
        status_of_emoji(status_emoji(s)) == Some(s),
{
    match s {
        BulletStatus::Open => {},
        BulletStatus::Done => {
            assert(seq!['\u{2705}'] != seq!['\u{1F4CC}']) by {
                assert(seq!['\u{2705}'][0] != seq!['\u{1F4CC}'][0]);
            }
        },
        BulletStatus::Migrated => {
            assert(seq!['\u{27A1}', '\u{FE0F}'].len() != seq!['\u{1F4CC}'].len());
            assert(seq!['\u{27A1}', '\u{FE0F}'].len() != seq!['\u{2705}'].len());
        },
        BulletStatus::Cancelled => {
            assert(seq!['\u{274C}'][0] != seq!['\u{1F4CC}'][0]);
            assert(seq!['\u{274C}'][0] != seq!['\u{2705}'][0]);
            assert(seq!['\u{274C}'][0] != seq!['\u{27A1}'][0]);
            assert(seq!['\u{274C}'].len() != seq!['\u{27A1}', '\u{FE0F}'].len());
        },
        BulletStatus::Backlogged => {
            assert(seq!['\u{1F4E5}'][0] != seq!['\u{1F4CC}'][0]);
            assert(seq!['\u{1F4E5}'][0] != seq!['\u{2705}'][0]);
            assert(seq!['\u{1F4E5}'][0] != seq!['\u{27A1}'][0]);
            assert(seq!['\u{1F4E5}'][0] != seq!['\u{274C}'][0]);
            assert(seq!['\u{1F4E5}'].len() != seq!['\u{27A1}', '\u{FE0F}'].len());
        },
    }
}

/// Whether `v[lo..hi]` is the single character `c`.
fn is_char1(v: &Vec<char>, lo: usize, hi: usize, c: char) -> (r: bool)
    requires
        lo <= hi <= v.len(),
    ensures
        r == (v@.subrange(lo as int, hi as int) == seq![c]),
{
    let r = hi - lo == 1 && v[lo] == c;
    proof {
        if hi - lo == 1 {
            assert(v@.subrange(lo as int, hi as int)[0] == v@[lo as int]);
            if v[lo as int] == c {
                assert(v@.subrange(lo as int, hi as int) =~= seq![c]);
            }
        }
        if v@.subrange(lo as int, hi as int) == seq![c] {
            assert(v@.subrange(lo as int, hi as int).len() == 1);
            assert(v@.subrange(lo as int, hi as int)[0] == c);
        }
    }
    r
}

/// Whether `v[lo..hi]` is the two characters `c`, `d`.
fn is_char2(v: &Vec<char>, lo: usize, hi: usize, c: char, d: char) -> (r: bool)
    requires
        lo <= hi <= v.len(),
    ensures
        r == (v@.subrange(lo as int, hi as int) == seq![c, d]),
{
    let r = hi - lo == 2 && v[lo] == c && v[lo + 1] == d;
    proof {
        if hi - lo == 2 {
            assert(v@.subrange(lo as int, hi as int)[0] == v@[lo as int]);
            assert(v@.subrange(lo as int, hi as int)[1] == v@[lo + 1]);
            if v[lo as int] == c && v[lo + 1] == d {
                assert(v@.subrange(lo as int, hi as int) =~= seq![c, d]);
            }
        }
        if v@.subrange(lo as int, hi as int) == seq![c, d] {
            assert(v@.subrange(lo as int, hi as int).len() == 2);
            assert(v@.subrange(lo as int, hi as int)[0] == c);
            assert(v@.subrange(lo as int, hi as int)[1] == d);
        }
    }
    r
}

impl BulletStatus {
    /// Convert a status to its emoji string representation.
    pub fn as_emoji(&self) -> (r: &'static str)
        ensures
            r@ == status_emoji(*self),
    {
        proof {
            reveal_strlit("\u{1F4CC}");
            reveal_strlit("\u{2705}");
            reveal_strlit("\u{27A1}\u{FE0F}");
            reveal_strlit("\u{274C}");
            reveal_strlit("\u{1F4E5}");
        }
        match self {
            BulletStatus::Open => "\u{1F4CC}",
            BulletStatus::Done => "\u{2705}",
            BulletStatus::Migrated => "\u{27A1}\u{FE0F}",
            BulletStatus::Cancelled => "\u{274C}",
            BulletStatus::Backlogged => "\u{1F4E5}",
        }
    }

    /// The status whose emoji `v[lo..hi]` is, after trimming.
    pub fn from_emoji_chars(v: &Vec<char>, lo: usize, hi: usize) -> (r: Option<BulletStatus>)
        requires
            lo <= hi <= v.len(),
        ensures
            r == status_of_emoji(v@.subrange(lo as int, hi as int)),
    {
        if is_char1(v, lo, hi, '\u{1F4CC}') {
            Some(BulletStatus::Open)
        } else if is_char1(v, lo, hi, '\u{2705}') {
            Some(BulletStatus::Done)
        } else if is_char2(v, lo, hi, '\u{27A1}', '\u{FE0F}') || is_char1(v, lo, hi, '\u{27A1}') {
            Some(BulletStatus::Migrated)
        } else if is_char1(v, lo, hi, '\u{274C}') {
            Some(BulletStatus::Cancelled)
        } else if is_char1(v, lo, hi, '\u{1F4E5}') {
            Some(BulletStatus::Backlogged)
        } else {
            None
        }
    }

    /// Parse a status from its emoji string representation.
    pub fn from_emoji(s: &str) -> (r: Result<BulletStatus, Error>)
        ensures
            match r {
                Ok(st) => status_of_emoji(trim(s@)) == Some(st),
                Err(e) => status_of_emoji(trim(s@)) is None && e@ == (ErrorView::UnknownStatusEmoji {
                    emoji: trim(s@),
                }),
            },
    {
        let v = chars_of(s);
        let (a, b) = trim_bounds(&v);
        match BulletStatus::from_emoji_chars(&v, a, b) {
            Some(st) => Ok(st),
            None => Err(Error::UnknownStatusEmoji { emoji: string_of(&v, a, b) }),
        }
    }

    /// Get the display icon for this status from config.
    pub fn display_icon<'a>(&self, icons: &'a IconsConfig) -> (r: &'a str)
        ensures
            r@ == match *self {
                BulletStatus::Open => icons.open@,
                BulletStatus::Done => icons.done@,
                BulletStatus::Migrated => icons.migrated@,
                BulletStatus::Cancelled => icons.cancelled@,
                BulletStatus::Backlogged => icons.backlogged@,
            },
    {
        match self {
            BulletStatus::Open => icons.open.as_str(),
            BulletStatus::Done => icons.done.as_str(),
            BulletStatus::Migrated => icons.migrated.as_str(),
            BulletStatus::Cancelled => icons.cancelled.as_str(),
            BulletStatus::Backlogged => icons.backlogged.as_str(),
        }
    }

    /// Display name for error messages.
    pub fn display_name(&self) -> (r: &'static str)
        ensures
            r@ == status_name(*self),
    {
        proof {
            reveal_strlit("open");
            reveal_strlit("done");
            reveal_strlit("migrated");
            reveal_strlit("cancelled");
            reveal_strlit("backlogged");
        }
        match self {
            BulletStatus::Open => "open",
            BulletStatus::Done => "done",
            BulletStatus::Migrated => "migrated",
            BulletStatus::Cancelled => "cancelled",
            BulletStatus::Backlogged => "backlogged",
        }
    }
}

/// The order in which grouped views list the statuses.
pub const STATUS_GROUP_ORDER: [BulletStatus; 5] = [
    BulletStatus::Open,
    BulletStatus::Done,
    BulletStatus::Migrated,
    BulletStatus::Cancelled,
    BulletStatus::Backlogged,
];

/// The target of a migration — either a specific date or the backlog.
#[derive(Debug, Clone, Copy, PartialEq, Eq, Structural)]
pub enum MigrationTarget {
    Date(Date),
    Backlog,
}

/// A "migrated to" reference — where this bullet was sent.
/// Stored as `[to YYYY-MM-DD/ID](./YYYY-MM-DD.md)` or `[to backlog/ID](./backlog.md)`.
#[derive(Debug, Clone, PartialEq, Eq)]
pub struct MigrationTo {
    pub target_date: MigrationTarget,
    pub target_id: String,
}

/// A "migrated from" reference — where this bullet came from.
/// Stored as `[from YYYY-MM-DD/ID](./YYYY-MM-DD.md)`.
#[derive(Debug, Clone, PartialEq, Eq)]
pub struct MigrationFrom {
    pub source_date: Date,
    pub source_id: String,
}

pub struct MigrationToView {
    pub target_date: MigrationTarget,
    pub target_id: Seq<char>,
}

pub struct MigrationFromView {
    pub source_date: Date,
    pub source_id: Seq<char>,
}

impl View for MigrationTo {
    type V = MigrationToView;

    open spec fn view(&self) -> MigrationToView {
        MigrationToView { target_date: self.target_date, target_id: self.target_id@ }
    }
}

impl View for MigrationFrom {
    type V = MigrationFromView;

    open spec fn view(&self) -> MigrationFromView {
        MigrationFromView { source_date: self.source_date, source_id: self.source_id@ }
    }
}

pub open spec fn opt_to_view(m: Option<MigrationTo>) -> Option<MigrationToView> {
    match m {
        Some(t) => Some(t@),
        None => None,
    }
}

pub open spec fn opt_from_view(m: Option<MigrationFrom>) -> Option<MigrationFromView> {
    match m {
        Some(f) => Some(f@),
        None => None,
    }
}

/// The character sequences held by a vector of strings.
pub open spec fn strings_view(v: Seq<String>) -> Seq<Seq<char>> {
    v.map_values(|s: String| s@)
}

/// A single bullet entry in a daily log.
#[derive(Debug, Clone, PartialEq, Eq)]
pub struct Bullet {
    /// Short ID (a letter and a digit), unique within the file.
    pub id: String,
    /// The current status (encodes both type and state).
    pub status: BulletStatus,
    /// The bullet text — a short description.
    pub text: String,
    /// Optional notes providing additional context.
    pub notes: Vec<String>,
    /// Where this bullet was migrated/backlogged to, if any.
    pub migrated_to: Option<MigrationTo>,
    /// Where this bullet was migrated from, if any.
    pub migrated_from: Option<MigrationFrom>,
}

pub struct BulletView {
    pub id: Seq<char>,
    pub status: BulletStatus,
    pub text: Seq<char>,
    pub notes: Seq<Seq<char>>,
    pub migrated_to: Option<MigrationToView>,
    pub migrated_from: Option<MigrationFromView>,
}

impl View for Bullet {
    type V = BulletView;

    open spec fn view(&self) -> BulletView {
        BulletView {
            id: self.id@,
            status: self.status,
            text: self.text@,
            notes: strings_view(self.notes@),
            migrated_to: opt_to_view(self.migrated_to),
            migrated_from: opt_from_view(self.migrated_from),
        }
    }
}

/// The views of a sequence of bullets.
pub open spec fn bullets_view(v: Seq<Bullet>) -> Seq<BulletView> {
    v.map_values(|b: Bullet| b@)
}

/// A copy of a vector of strings.
pub fn copy_strings(v: &Vec<String>) -> (r: Vec<String>)
    ensures
        r@ == v@,
{
    let mut r: Vec<String> = Vec::new();
    let mut i: usize = 0;
    while i < v.len()
        invariant
            i <= v.len(),
            r@ == v@.take(i as int),
        decreases v.len() - i,
    {
        r.push(v[i].clone());
        i = i + 1;
        assert(r@ =~= v@.take(i as int));
    }
    assert(v@.take(v.len() as int) =~= v@);
    r
}

/// A copy of a "migrated to" reference.
pub fn copy_migration_to(m: &Option<MigrationTo>) -> (r: Option<MigrationTo>)
    ensures
        opt_to_view(r) == opt_to_view(*m),
{
    match m {
        Some(t) => Some(MigrationTo { target_date: t.target_date, target_id: t.target_id.clone() }),
        None => None,
    }
}

/// A copy of a "migrated from" reference.
pub fn copy_migration_from(m: &Option<MigrationFrom>) -> (r: Option<MigrationFrom>)
    ensures
        opt_from_view(r) == opt_from_view(*m),
{
    match m {
        Some(f) => Some(MigrationFrom { source_date: f.source_date, source_id: f.source_id.clone() }),
        None => None,
    }
}

/// A copy of a bullet.
pub fn copy_bullet(b: &Bullet) -> (r: Bullet)
    ensures
        r@ == b@,
{
    let notes = copy_strings(&b.notes);
    Bullet {
        id: b.id.clone(),
        status: b.status,
        text: b.text.clone(),
        notes,
        migrated_to: copy_migration_to(&b.migrated_to),
        migrated_from: copy_migration_from(&b.migrated_from),
    }
}

/// A copy of a vector of bullets.
pub fn copy_bullets(v: &Vec<Bullet>) -> (r: Vec<Bullet>)
    ensures
        bullets_view(r@) == bullets_view(v@),
{
    let mut r: Vec<Bullet> = Vec::new();
    let mut i: usize = 0;
    while i < v.len()
        invariant
            i <= v.len(),
            r.len() == i,
            forall|k: int| 0 <= k < i ==> (#[trigger] r@[k])@ == v@[k]@,
        decreases v.len() - i,
    {
        r.push(copy_bullet(&v[i]));
        i = i + 1;
    }
    assert(bullets_view(r@) =~= bullets_view(v@));
    r
}

/// A daily log containing all bullets for a single day.
#[derive(Debug, Clone, PartialEq, Eq)]
pub struct DailyLog {
    /// The date this log covers.
    pub date: Date,
    /// All bullets in creation order.
    pub bullets: Vec<Bullet>,
}

pub struct DailyLogView {
    pub date: Date,
    pub bullets: Seq<BulletView>,
}

impl View for DailyLog {
    type V = DailyLogView;

    open spec fn view(&self) -> DailyLogView {
        DailyLogView { date: self.date, bullets: bullets_view(self.bullets@) }
    }
}

/// A backlog file — same structure as a daily log but without a date.
#[derive(Debug, Clone, PartialEq, Eq)]
pub struct BacklogLog {
    pub bullets: Vec<Bullet>,
}

impl View for BacklogLog {
    type V = Seq<BulletView>;

    open spec fn view(&self) -> Seq<BulletView> {
        bullets_view(self.bullets@)
    }
}

/// A single migration link: where a bullet went, or where it came from.
pub enum Link {
    To(MigrationToView),
    From(MigrationFromView),
}

/// A single migration link, as `parse_migration` reads it.
#[derive(Debug, Clone, PartialEq, Eq)]
pub enum MigrationRef {
    To { target_date: MigrationTarget, target_id: String },
    From { source_date: Date, source_id: String },
}

impl View for MigrationRef {
    type V = Link;

    open spec fn view(&self) -> Link {
        match self {
            MigrationRef::To { target_date, target_id } => Link::To(
                MigrationToView { target_date: *target_date, target_id: target_id@ },
            ),
            MigrationRef::From { source_date, source_id } => Link::From(
                MigrationFromView { source_date: *source_date, source_id: source_id@ },
            ),
        }
    }
}

} // verus!
