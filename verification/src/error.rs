//! This crate's error type.
use vstd::prelude::*;

verus! {

/// The list of the possible error kinds.
#[derive(Debug, Clone, Copy, PartialEq, Eq, Structural)]
pub enum ErrorKind {
    /// Input data is invalid.
    Invalid,

    /// Other error.
    Other,
}

/// This crate specific error type.
#[derive(Debug, Clone, Copy, PartialEq, Eq, Structural)]
pub struct Error {
    /// The kind of this error.
    pub kind: ErrorKind,
}

impl Error {
    /// Makes an error of the `Invalid` kind.
    pub fn invalid() -> (r: Error)
        ensures
            r.kind == ErrorKind::Invalid,
    {
        Error { kind: ErrorKind::Invalid }
    }

    /// Makes an error of the `Other` kind.
    pub fn other() -> (r: Error)
        ensures
            r.kind == ErrorKind::Other,
    {
        Error { kind: ErrorKind::Other }
    }

    /// Returns the kind of this error.
    pub fn kind(&self) -> (r: ErrorKind)
        ensures
            r == self.kind,
    {
        self.kind
    }

    /// What this error says of itself, in words.
    pub open spec fn spec_describe(self) -> Seq<char> {
        match self.kind {
            ErrorKind::Invalid => ("invalid input")@,
            ErrorKind::Other => ("other error")@,
        }
    }

    /// Describes this error in words.
    pub fn describe(&self) -> (r: &'static str)
        ensures
            r@ == self.spec_describe(),
    {
        match self.kind {
            ErrorKind::Invalid => "invalid input",
            ErrorKind::Other => "other error",
        }
    }
}

} // verus!
