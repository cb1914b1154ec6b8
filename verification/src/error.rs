//! The error type of the library.

use std::io::Error as IoError;
use toml::de::Error as TomlDeError;
use vstd::prelude::*;

verus! {

#[verifier::external_type_specification]
#[verifier::external_body]
pub struct ExIoError(IoError);

#[verifier::external_type_specification]
#[verifier::external_body]
pub struct ExTomlDeError(TomlDeError);

/// Everything that can go wrong in the library and around it.
#[derive(Debug)]
pub enum Error {
    ReadFile { path: String, source: IoError },
    WriteFile { path: String, source: IoError },
    AtomicRename { from: String, to: String, source: IoError },
    CreateDir { path: String, source: IoError },
    MalformedRow { line: usize, detail: String },
    UnknownStatusEmoji { emoji: String },
    InvalidIdFormat { id: String },
    MissingColumns { line: usize, expected: usize, found: usize },
    MissingDateHeading { path: String },
    InvalidDate { value: String },
    InvalidMigrationLink { value: String },
    BulletNotFound { location: String, id: String },
    InvalidStatusTransition { from: String, to: String },
    DuplicateId { id: String, path: String },
    NotATask { date: String, id: String, bullet_type: String },
    ImmutableBullet { location: String, id: String, bullet_type: String },
    UnmigrateBlockedByChain { date: String, id: String },
    ConfigParse { path: String, source: TomlDeError },
    ConfigNotFound { path: String },
}

/// An error as contracts see it: its variant and its text fields.
pub enum ErrorView {
    ReadFile { path: Seq<char> },
    WriteFile { path: Seq<char> },
    AtomicRename { from: Seq<char>, to: Seq<char> },
    CreateDir { path: Seq<char> },
    MalformedRow { line: nat, detail: Seq<char> },
    UnknownStatusEmoji { emoji: Seq<char> },
    InvalidIdFormat { id: Seq<char> },
    MissingColumns { line: nat, expected: nat, found: nat },
    MissingDateHeading { path: Seq<char> },
    InvalidDate { value: Seq<char> },
    InvalidMigrationLink { value: Seq<char> },
    BulletNotFound { location: Seq<char>, id: Seq<char> },
    InvalidStatusTransition { from: Seq<char>, to: Seq<char> },
    DuplicateId { id: Seq<char>, path: Seq<char> },
    NotATask { date: Seq<char>, id: Seq<char>, bullet_type: Seq<char> },
    ImmutableBullet { location: Seq<char>, id: Seq<char>, bullet_type: Seq<char> },
    UnmigrateBlockedByChain { date: Seq<char>, id: Seq<char> },
    ConfigParse { path: Seq<char> },
    ConfigNotFound { path: Seq<char> },
}

impl View for Error {
    type V = ErrorView;

    open spec fn view(&self) -> ErrorView {
        match self {
            Error::ReadFile { path, .. } => ErrorView::ReadFile { path: path@ },
            Error::WriteFile { path, .. } => ErrorView::WriteFile { path: path@ },
            Error::AtomicRename { from, to, .. } => ErrorView::AtomicRename { from: from@, to: to@ },
            Error::CreateDir { path, .. } => ErrorView::CreateDir { path: path@ },
            Error::MalformedRow { line, detail } => ErrorView::MalformedRow {
                line: *line as nat,
                detail: detail@,
            },
            Error::UnknownStatusEmoji { emoji } => ErrorView::UnknownStatusEmoji { emoji: emoji@ },
            Error::InvalidIdFormat { id } => ErrorView::InvalidIdFormat { id: id@ },
            Error::MissingColumns { line, expected, found } => ErrorView::MissingColumns {
                line: *line as nat,
                expected: *expected as nat,
                found: *found as nat,
            },
            Error::MissingDateHeading { path } => ErrorView::MissingDateHeading { path: path@ },
            Error::InvalidDate { value } => ErrorView::InvalidDate { value: value@ },
            Error::InvalidMigrationLink { value } => ErrorView::InvalidMigrationLink {
                value: value@,
            },
            Error::BulletNotFound { location, id } => ErrorView::BulletNotFound {
                location: location@,
                id: id@,
            },
            Error::InvalidStatusTransition { from, to } => ErrorView::InvalidStatusTransition {
                from: from@,
                to: to@,
            },
            Error::DuplicateId { id, path } => ErrorView::DuplicateId { id: id@, path: path@ },
            Error::NotATask { date, id, bullet_type } => ErrorView::NotATask {
                date: date@,
                id: id@,
                bullet_type: bullet_type@,
            },
            Error::ImmutableBullet { location, id, bullet_type } => ErrorView::ImmutableBullet {
                location: location@,
                id: id@,
                bullet_type: bullet_type@,
            },
            Error::UnmigrateBlockedByChain { date, id } => ErrorView::UnmigrateBlockedByChain {
                date: date@,
                id: id@,
            },
            Error::ConfigParse { path, .. } => ErrorView::ConfigParse { path: path@ },
            Error::ConfigNotFound { path } => ErrorView::ConfigNotFound { path: path@ },
        }
    }
}

/// Outcome of an unmigrate operation.
///
/// Unmigrate always succeeds (or returns an `Error`), but the target bullet
/// may be handled differently depending on whether it was modified.
#[derive(Debug, PartialEq, Eq, Structural, Clone, Copy)]
pub enum UnmigrateOutcome {
    /// Target bullet was untouched and has been deleted.
    TargetDeleted,
    /// Target bullet had been modified — it was cancelled instead of deleted
    /// to preserve any work done there.
    TargetCancelled,
}

} // verus!
