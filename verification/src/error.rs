//! What can go wrong with a command or with the table.

use vstd::prelude::*;

verus! {

/// A command that cannot be carried out as it was given. The table is not
/// looked at when one of these is reported.
#[derive(Debug, Clone, Copy, PartialEq, Eq, Structural)]
pub enum UsageError {
    /// No command was given.
    MissingCommand,
    /// The command is none of `list`, `create`, `complete`, `update`, `delete`.
    InvalidCommand,
    /// The command needs a task id and none was given.
    MissingId,
    /// The task id is no number.
    InvalidId,
}

/// A failure while reading, changing or writing the table.
#[derive(Debug, Clone, Copy, PartialEq, Eq, Structural)]
pub enum StoreError {
    /// The table's text cannot be read as comma-separated rows.
    StoreUnreadable,
    /// A row is not a task: it lacks a field, has one too many, its id is no
    /// positive number or its flag is neither `true` nor `false`; or the first
    /// row is not the header.
    MalformedRow,
    /// No task has the id that was asked for.
    NotFound,
    /// The rows could not be written as comma-separated text.
    StoreUnwritable,
}

} // verus!
