//! The ways in which a request on the store can fail.

use vstd::prelude::*;

verus! {

/// Why an operation did not take place.
#[derive(Debug, Clone, Copy, PartialEq, Eq, Structural)]
pub enum StoreError {
    /// No record carries the identifier that an update or a delete named.
    NotFound,
    /// An uploaded payload is not a JSON array of todo records.
    Parse,
    /// The home directory could not be resolved, or a file could not be
    /// created, written or read.
    Io,
    /// The identifier generated for a new record has been in the store before.
    IdTaken,
}

impl StoreError {
    /// The text that a reply carries for this failure.
    pub open spec fn text(self) -> Seq<char> {
        match self {
            StoreError::NotFound => "Todo not found"@,
            StoreError::Parse => "Task file is not a JSON array of todos"@,
            StoreError::Io => "File processing failed"@,
            StoreError::IdTaken => "Could not assign a fresh id"@,
        }
    }

    /// The text that a reply carries for this failure.
    pub fn message(&self) -> (message: String)
        ensures
            message@ == self.text(),
    {
        match self {
            StoreError::NotFound => "Todo not found".to_owned(),
            StoreError::Parse => "Task file is not a JSON array of todos".to_owned(),
            StoreError::Io => "File processing failed".to_owned(),
            StoreError::IdTaken => "Could not assign a fresh id".to_owned(),
        }
    }
}

} // verus!
