use vstd::prelude::*;

use crate::path::FsPath;

verus! {

/// A visited filesystem path with its classification and error history.
pub struct FsEntry {
    pub path: FsPath,
    pub kind: FileKind,
    pub metadata: Option<EntryMetaData>,
    pub errors: Vec<EntryError>,
}

/// The semantic kind of a visited path.
#[derive(Clone, Copy, PartialEq, Eq, Structural, Debug)]
pub enum FileKind {
    File,
    Directory,
    Symlink,
    Other,
}

/// What was learned of an entry from the filesystem; times are seconds
/// since the Unix epoch.
pub struct EntryMetaData {
    pub size_bytes: Option<u64>,
    pub modified: Option<u64>,
    pub created: Option<u64>,
    pub accessed: Option<u64>,
    pub readonly: Option<bool>,
    pub mime: Option<String>,
    pub canonical_path: Option<FsPath>,
}

/// One failure met while handling an entry.
pub struct EntryError {
    pub path: FsPath,
    pub operation: EntryOp,
    pub source: Option<String>,
    pub severity: Severity,
    pub outcome: Outcome,
}

/// The operation that failed.
#[derive(Clone, Copy, PartialEq, Eq, Structural, Debug)]
pub enum EntryOp {
    /// Listing a directory.
    ReadDir,
    /// Fetching metadata.
    Metadata,
    /// Resolving symlinks or the absolute identity.
    Canonicalize,
    Open,
    Move,
    Rename,
    Copy,
    Delete,
    /// Expanding or substituting in a path.
    ParsePath,
    /// Matching rules against the entry.
    MatchRule,
}

/// How serious a failure is.
#[derive(Clone, Copy, PartialEq, Eq, Structural, Debug)]
pub enum Severity {
    Warning,
    Error,
    Fatal,
}

/// What was done about a failure.
#[derive(Clone, Copy, PartialEq, Eq, Structural, Debug)]
pub enum Outcome {
    Skipped,
    Aborted,
    Retried(u32),
}

/// The outcome reported for a visited path.
#[derive(Clone, Copy, PartialEq, Eq, Structural, Debug)]
pub enum Log {
    Success,
    CannotDescend,
    CannotProcess,
    UnknownError,
}

/// The error of `entry_error`, or, when there is none, a warning that the
/// path could not be parsed and was skipped.
pub fn parse_errors(path: &FsPath, entry_error: Option<EntryError>) -> (r: EntryError)
    ensures
        entry_error is Some ==> r == entry_error->0,
        entry_error is None ==> r.path@ == path@ && r.operation == EntryOp::ParsePath
            && r.source is None && r.severity == Severity::Warning && r.outcome
            == Outcome::Skipped,
{
    match entry_error {
        Some(e) => e,
        None => EntryError {
            path: path.copy(),
            operation: EntryOp::ParsePath,
            source: None,
            severity: Severity::Warning,
            outcome: Outcome::Skipped,
        },
    }
}

} // verus!
