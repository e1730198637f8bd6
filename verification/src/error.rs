//! Generic result and error type shared by format-independent helpers.

use vstd::prelude::*;

verus! {

/// An error paired with the byte position of the last successfully
/// processed offset.
#[derive(Debug, Clone, PartialEq)]
pub struct Error {
    /// Position of the last successfully processed byte.
    pub pos: u64,
    /// Error type.
    pub kind: ErrorKind,
}

impl Error {
    /// Pairs a byte position with an error kind.
    pub fn new(pos: u64, kind: ErrorKind) -> (r: Self)
        ensures
            r.pos == pos,
            r.kind == kind,
    {
        Error { pos, kind }
    }
}

/// Error type.
#[derive(Debug, Clone, PartialEq)]
pub enum ErrorKind {
    /// Conversion from an array of bytes to a string failed.
    FromUtf8Error,
    /// Transport failure.
    Io,
    /// Reached unexpected end of input.
    UnexpectedEof,
    /// Attempted to use an unimplemented feature.
    Unimplemented(String),
}

} // verus!
