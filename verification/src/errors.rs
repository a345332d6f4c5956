//! The error taxonomy of the profile store: every failing operation reports
//! one of these kinds together with a message in bytes.

use vstd::prelude::*;

verus! {

/// The class of a failure, mirroring the operating-system error classes the
/// operations report.
#[derive(Clone, Copy, Debug, PartialEq, Eq)]
pub enum ErrorKind {
    /// A profile, an editor or the home directory was not found.
    NotFound,
    /// A profile of that name already exists.
    AlreadyExists,
    /// The search environment for an editor was unusable.
    PermissionDenied,
    /// Any other failure.
    Other,
}

/// An error of the profile store: a kind and a human-readable message.
#[derive(Debug)]
pub struct StoreError {
    pub kind: ErrorKind,
    pub message: Vec<u8>,
}

impl StoreError {
    pub fn new(kind: ErrorKind, message: Vec<u8>) -> (r: Self)
        ensures
            r.kind == kind,
            r.message == message,
    {
        StoreError { kind, message }
    }

    /// The message as bytes, for callers that render the error.
    pub fn message_bytes(&self) -> (r: &Vec<u8>)
        ensures
            r@ == self.message@,
    {
        &self.message
    }
}

} // verus!
