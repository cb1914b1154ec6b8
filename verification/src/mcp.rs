//! The requests of the MCP server and the rules that read their arguments.

use crate::date::{parse_date, parsed_date, Date};
use crate::model::{status_name, BulletStatus};
use crate::text::{parse_usize, usize_of};
use vstd::prelude::*;

verus! {

// ---------------------------------------------------------------------------
// Request parameters

#[derive(Debug, Clone, PartialEq, Eq)]
pub struct AddBulletParams {
    /// The bullet text
    pub text: String,
    /// Target date (YYYY-MM-DD). Defaults to today.
    pub date: Option<String>,
    /// Optional context notes
    pub notes: Option<Vec<String>>,
}

#[derive(Debug, Clone, PartialEq, Eq)]
pub struct ListBulletsParams {
    /// Date to list bullets for (YYYY-MM-DD). Defaults to today.
    pub date: Option<String>,
    /// Filter by status: "open", "done", "migrated", "cancelled", "backlogged"
    pub status: Option<String>,
    /// Group results by "status". When set, returns grouped object instead of flat list.
    pub group_by: Option<String>,
}

#[derive(Debug, Clone, PartialEq, Eq)]
pub struct UpdateBulletParams {
    /// Date of the bullet (YYYY-MM-DD)
    pub date: String,
    /// Bullet ID (e.g. "a3")
    pub id: String,
    /// New text
    pub text: String,
}

#[derive(Debug, Clone, PartialEq, Eq)]
pub struct AppendNoteParams {
    /// Date of the bullet (YYYY-MM-DD)
    pub date: String,
    /// Bullet ID (e.g. "a3")
    pub id: String,
    /// Note line to append
    pub note: String,
}

#[derive(Debug, Clone, PartialEq, Eq)]
pub struct UpdateNotesParams {
    /// Date of the bullet (YYYY-MM-DD)
    pub date: String,
    /// Bullet ID (e.g. "a3")
    pub id: String,
    /// Full replacement notes (overwrites all existing notes)
    pub notes: Vec<String>,
}

#[derive(Debug, Clone, PartialEq, Eq)]
pub struct BulletRefParams {
    /// Date of the bullet (YYYY-MM-DD)
    pub date: String,
    /// Bullet ID (e.g. "a3")
    pub id: String,
}

#[derive(Debug, Clone, PartialEq, Eq)]
pub struct MigrateBulletParams {
    /// Source date (YYYY-MM-DD)
    pub date: String,
    /// Bullet ID (e.g. "a3")
    pub id: String,
    /// Target date (YYYY-MM-DD). Defaults to tomorrow.
    pub target_date: Option<String>,
}

#[derive(Debug, Clone, PartialEq, Eq)]
pub struct MoveBulletParams {
    /// Date of the bullet (YYYY-MM-DD)
    pub date: String,
    /// Bullet ID (e.g. "a3")
    pub id: String,
    /// Target position: "top", "bottom", or a 0-based index number
    pub position: String,
}

#[derive(Debug, Clone, PartialEq, Eq)]
pub struct ListOpenBulletsParams {
    /// Number of days to look back. Defaults to config value.
    pub lookback_days: Option<u32>,
}

#[derive(Debug, Clone, PartialEq, Eq)]
pub struct BatchStatusParams {
    /// Date of the bullets (YYYY-MM-DD)
    pub date: String,
    /// Bullet IDs to update (e.g. ["a3", "b7", "f4"])
    pub ids: Vec<String>,
    /// Target status: "done", "open", "cancelled"
    pub status: String,
}

// ---------------------------------------------------------------------------
// Reading arguments

/// The status whose lower-case name is `s`.
pub open spec fn status_named(s: Seq<char>) -> Option<BulletStatus> {
    if s == status_name(BulletStatus::Open) {
        Some(BulletStatus::Open)
    } else if s == status_name(BulletStatus::Done) {
        Some(BulletStatus::Done)
    } else if s == status_name(BulletStatus::Migrated) {
        Some(BulletStatus::Migrated)
    } else if s == status_name(BulletStatus::Cancelled) {
        Some(BulletStatus::Cancelled)
    } else if s == status_name(BulletStatus::Backlogged) {
        Some(BulletStatus::Backlogged)
    } else {
        None
    }
}

/// The status a status filter names.
pub fn parse_bullet_status(s: &str) -> (r: Option<BulletStatus>)
    ensures
        r == status_named(s@),
{
    let t = String::from_str(s);
    if t == String::from_str(BulletStatus::Open.display_name()) {
        Some(BulletStatus::Open)
    } else if t == String::from_str(BulletStatus::Done.display_name()) {
        Some(BulletStatus::Done)
    } else if t == String::from_str(BulletStatus::Migrated.display_name()) {
        Some(BulletStatus::Migrated)
    } else if t == String::from_str(BulletStatus::Cancelled.display_name()) {
        Some(BulletStatus::Cancelled)
    } else if t == String::from_str(BulletStatus::Backlogged.display_name()) {
        Some(BulletStatus::Backlogged)
    } else {
        None
    }
}

/// The status a batch change sets: done, open or cancelled.
pub fn batch_target_status(s: &str) -> (r: Option<BulletStatus>)
    ensures
        r == match status_named(s@) {
            Some(BulletStatus::Done) => Some(BulletStatus::Done),
            Some(BulletStatus::Open) => Some(BulletStatus::Open),
            Some(BulletStatus::Cancelled) => Some(BulletStatus::Cancelled),
            _ => None,
        },
{
    match parse_bullet_status(s) {
        Some(BulletStatus::Done) => Some(BulletStatus::Done),
        Some(BulletStatus::Open) => Some(BulletStatus::Open),
        Some(BulletStatus::Cancelled) => Some(BulletStatus::Cancelled),
        _ => None,
    }
}

/// The message for a date argument that is not one.
pub open spec fn invalid_date_message(s: Seq<char>) -> Seq<char> {
    "invalid date: "@ + s
}

/// A date argument, `YYYY-MM-DD`.
pub fn parse_date_arg(s: &str) -> (r: Result<Date, String>)
    ensures
        match parsed_date(s@) {
            Some(d) => r matches Ok(x) && x == d,
            None => r matches Err(m) && m@ == invalid_date_message(s@),
        },
{
    match parse_date(s) {
        Some(d) => Ok(d),
        None => {
            let mut m = String::from_str("invalid date: ");
            m.append(s);
            Err(m)
        },
    }
}

/// A position in a day's list: `top`, `bottom` (past the end), or a
/// 0-based index.
pub open spec fn position_named(s: Seq<char>) -> Option<usize> {
    if s == "top"@ {
        Some(0)
    } else if s == "bottom"@ {
        Some(usize::MAX)
    } else {
        usize_of(s)
    }
}

/// The position a move request names.
pub fn parse_position(s: &str) -> (r: Option<usize>)
    ensures
        r == position_named(s@),
{
    let t = String::from_str(s);
    if t == String::from_str("top") {
        return Some(0);
    }
    if t == String::from_str("bottom") {
        return Some(usize::MAX);
    }
    parse_usize(s)
}

} // verus!
