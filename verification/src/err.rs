//! Error taxonomy of the tracker.
//!
//! Recoverable failures are values of [`CommandError`]: either a persistence
//! failure reported by the store (`DatabaseError`) or a user-facing logic
//! error (`Other`).  Corruption findings of the consistency audit are kept
//! apart in [`CorruptionError`]: they signal irrecoverable state drift, and
//! the process that embeds the library is expected to abort on them rather
//! than continue.

use vstd::prelude::*;

use crate::db::WorktimeSessionId;

verus! {

/// A failure of a single command; the program keeps running after one.
#[derive(Debug, Clone, PartialEq, Eq)]
pub enum CommandError {
    /// The persistence layer failed; the payload describes the failure.
    DatabaseError(String),
    /// Non critical; the payload is the reason shown to the user.
    Other(String),
}

/// The outcome of one executed command: a human-readable success message or
/// a typed failure.
pub type CommandResult<T = String> = Result<T, CommandError>;

/// The text of the store's not-found failure, as the persistence layer
/// reports a query that matched no row.
pub open spec fn row_not_found_chars() -> Seq<char> {
    "no rows returned by a query that expected to return at least one row"@
}

/// The text of the logic error for starting twice.
pub open spec fn already_started_chars() -> Seq<char> {
    "Session already started"@
}

/// The store's not-found failure.
pub fn row_not_found_error() -> (e: CommandError)
    ensures
        e matches CommandError::DatabaseError(m) && m@ == row_not_found_chars(),
{
    CommandError::DatabaseError(
        "no rows returned by a query that expected to return at least one row".to_owned(),
    )
}

/// The logic error for starting twice.
pub fn already_started_error() -> (e: CommandError)
    ensures
        e matches CommandError::Other(m) && m@ == already_started_chars(),
{
    CommandError::Other("Session already started".to_owned())
}

/// A corruption finding of the consistency audit.  These are fatal: the
/// embedding process must terminate loudly instead of continuing with
/// corrupt data.
#[derive(Debug, Clone, Copy, PartialEq, Eq)]
pub enum CorruptionError {
    /// More than one session is open at once.
    MultipleOpenSessions { count: usize },
    /// A closed session ends strictly before it starts.
    InvertedSession { id: WorktimeSessionId },
    /// A session starts before the effective end of an earlier one.
    SessionOverlap { id: WorktimeSessionId },
    /// Stored ids are not strictly increasing.
    NonIncreasingIds,
    /// A stored timestamp is not a valid calendar time.
    InvalidTimestamp { id: WorktimeSessionId },
}

} // verus!
