//! The error taxonomy of the contract call surface.
//!
//! Every failing call ends with exactly one of these kinds, so callers can
//! match on the kind instead of inspecting message text. A descriptive
//! message accompanies each kind for the external caller.

use vstd::prelude::*;

verus! {

/// Why a contract call failed.
#[derive(Clone, Copy, Debug, PartialEq, Eq, Structural)]
pub enum CallError {
    /// The storage adapter could not load or commit; fatal for the call.
    StorageError,
    /// No puzzle is stored at the queried address.
    NotFound,
    /// A required optional input field was absent.
    MissingInput,
    /// The guess did not match the stored word.
    WrongGuess,
    /// The call selector matched no exposed operation.
    UnknownOperation,
    /// The call payload did not decode into the operation's input.
    DecodeError,
}

impl CallError {
    /// The descriptive message reported to the external caller.
    pub fn message(&self) -> (m: &'static str)
        ensures
            *self == CallError::StorageError ==> m@ == "the storage adapter failed to load or commit"@,
            *self == CallError::NotFound ==> m@ == "there is no puzzle in this address"@,
            *self == CallError::MissingInput ==> m@ == "a required input field is missing"@,
            *self == CallError::WrongGuess ==> m@ == "the guess does not match the word"@,
            *self == CallError::UnknownOperation ==> m@ == "the selector matches no operation"@,
            *self == CallError::DecodeError ==> m@ == "the call payload could not be decoded"@,
    {
        match self {
            CallError::StorageError => "the storage adapter failed to load or commit",
            CallError::NotFound => "there is no puzzle in this address",
            CallError::MissingInput => "a required input field is missing",
            CallError::WrongGuess => "the guess does not match the word",
            CallError::UnknownOperation => "the selector matches no operation",
            CallError::DecodeError => "the call payload could not be decoded",
        }
    }
}

} // verus!
