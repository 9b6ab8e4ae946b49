//! The error taxonomy of the core. Every failure surfaced to a caller is
//! one of these variants; each carries the message text shown to the user.
use vstd::prelude::*;

verus! {

/// Why an operation failed.
#[derive(Debug)]
pub enum CoreError {
    /// A project or timeline with the given id does not exist.
    NotFound(String),
    /// A required input field is missing or empty.
    InvalidInput(String),
    /// A persisted file is missing or malformed.
    StorageFailure(String),
    /// An external stage process failed or could not be spawned.
    CollaboratorFailure(String),
    /// A stage response lacks a required field or is malformed.
    InvalidPipelineResponse(String),
    /// A stage response's remove-ranges cannot be read as time ranges.
    InvalidRanges(String),
}

impl CoreError {
    /// The message carried by the error, whichever variant it is.
    pub open spec fn message_spec(&self) -> Seq<char> {
        match self {
            CoreError::NotFound(m) => m@,
            CoreError::InvalidInput(m) => m@,
            CoreError::StorageFailure(m) => m@,
            CoreError::CollaboratorFailure(m) => m@,
            CoreError::InvalidPipelineResponse(m) => m@,
            CoreError::InvalidRanges(m) => m@,
        }
    }

    /// The message surfaced to the caller.
    pub fn message(&self) -> (r: String)
        ensures
            r@ == self.message_spec(),
    {
        match self {
            CoreError::NotFound(m) => m.clone(),
            CoreError::InvalidInput(m) => m.clone(),
            CoreError::StorageFailure(m) => m.clone(),
            CoreError::CollaboratorFailure(m) => m.clone(),
            CoreError::InvalidPipelineResponse(m) => m.clone(),
            CoreError::InvalidRanges(m) => m.clone(),
        }
    }
}

} // verus!
