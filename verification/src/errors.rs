//! The failure type surfaced by every fallible operation of the library.
//!
//! A detection either succeeds or aborts with a [`Failure`] whose kind names
//! the trigger: a missing parent record, malformed data, or a failure that a
//! caller-supplied capability reported and that is propagated unchanged.

use vstd::prelude::*;

verus! {

/// The kind of a failure, preserved through every layer of the detection.
#[derive(Clone, Copy, Debug, PartialEq, Eq, Structural)]
pub enum ErrKind {
    /// No parent-id record was present, or the ancestry walk exhausted the
    /// root or the hop ceiling without matching a known shell.
    NotFound,
    /// A parent-id token was not a valid unsigned integer, or captured
    /// subprocess output was not valid text.
    InvalidData,
    /// A caller-supplied capability rejected its input.
    InvalidInput,
    /// A caller-supplied capability was denied access.
    PermissionDenied,
    /// Any other failure reported by a caller-supplied capability.
    Other,
}

/// The mathematical value of a [`Failure`]: its kind and its message text.
pub ghost struct FailureModel {
    pub kind: ErrKind,
    pub message: Seq<char>,
}

/// A failure, carrying its kind and a human-readable description.
#[derive(Debug)]
pub struct Failure {
    kind: ErrKind,
    message: String,
}

impl View for Failure {
    type V = FailureModel;

    closed spec fn view(&self) -> FailureModel {
        FailureModel { kind: self.kind, message: self.message@ }
    }
}

impl Failure {
    /// Builds a failure of an arbitrary kind.
    pub fn new(kind: ErrKind, message: &str) -> (r: Failure)
        ensures
            r@ == (FailureModel { kind, message: message@ }),
    {
        Failure { kind, message: message.to_owned() }
    }

    /// Builds a `NotFound` failure.
    pub fn not_found(message: &str) -> (r: Failure)
        ensures
            r@ == (FailureModel { kind: ErrKind::NotFound, message: message@ }),
    {
        Failure { kind: ErrKind::NotFound, message: message.to_owned() }
    }

    /// Builds an `InvalidData` failure.
    pub fn invalid_data(message: &str) -> (r: Failure)
        ensures
            r@ == (FailureModel { kind: ErrKind::InvalidData, message: message@ }),
    {
        Failure { kind: ErrKind::InvalidData, message: message.to_owned() }
    }

    /// The kind of this failure.
    pub fn kind(&self) -> (k: ErrKind)
        ensures
            k == self@.kind,
    {
        self.kind
    }

    /// The human-readable description of this failure.
    pub fn message(&self) -> (m: &str)
        ensures
            m@ == self@.message,
    {
        self.message.as_str()
    }
}

} // verus!
