//! What can go wrong in a command.
use vstd::prelude::*;

verus! {

/// The ways a command fails; each ends the invocation.
#[derive(Debug, Clone, Copy, PartialEq, Eq, Structural)]
pub enum TaskError {
    /// A priority that is none of low, medium, high.
    InvalidPriority,
    /// A due date that is not a real day in the `YYYY-MM-DD` format.
    InvalidDate,
    /// A sort mode that is none of date, priority, due-date.
    InvalidSortOption,
    /// No task has this identifier.
    NotFound(u32),
    /// The task file exists but could not be read.
    StorageReadError,
    /// The task file could not be parsed.
    StorageParseError,
    /// The task file could not be written.
    StorageWriteError,
    /// The user's home directory could not be determined.
    HomeDirectoryUnavailable,
    /// Every identifier up to the largest one is taken.
    IdsExhausted,
}

} // verus!
