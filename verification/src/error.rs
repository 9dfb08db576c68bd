//! Error taxonomy of the engine: every failure is returned as a typed
//! result carrying one of these kinds together with a human-readable message.

use vstd::prelude::*;

verus! {

/// The closed set of error classes that operations in this crate report.
#[derive(Clone, Copy, PartialEq, Eq, Structural, Debug)]
pub enum ErrorKind {
    /// No input where at least one element is required.
    EmptyData,
    /// Schema or shape disagreement between values that must align.
    DataStructMismatch,
    /// An operator was applied to an unsupported type combination.
    BadDataValueType,
    /// A value fails a type precondition (e.g. non-numeric where numeric required).
    IllegalDataType,
    /// A function name was not found in any registry.
    UnknownFunction,
    /// An account with this name already exists.
    UserAlreadyExists,
    /// No account with this name (or the sequence number did not match).
    UnknownUser,
    /// A stored account record could not be decoded.
    IllegalUserInfoFormat,
    /// A result that the store should never produce.
    UnknownException,
}

/// A typed error: a kind plus the offending names/types in the message,
/// so a query author can correct the input.
#[derive(Clone, Debug)]
pub struct ErrorCode {
    pub kind: ErrorKind,
    pub message: String,
}

impl ErrorCode {
    pub fn new(kind: ErrorKind, message: String) -> (r: ErrorCode)
        ensures
            r.kind == kind,
            r.message == message,
    {
        ErrorCode { kind, message }
    }

    pub fn message(&self) -> (r: &String)
        ensures
            r == &self.message,
    {
        &self.message
    }

    pub fn kind(&self) -> (r: ErrorKind)
        ensures
            r == self.kind,
    {
        self.kind
    }
}

} // verus!
