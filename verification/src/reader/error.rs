//! Result and error type for the FBX reader.

use vstd::prelude::*;

verus! {

/// A specialized result type for FBX parsing.
pub type Result<T> = core::result::Result<T, Error>;

/// An FBX parsing error.
#[derive(Debug, Clone, PartialEq)]
pub struct Error {
    /// Last position of successfully read data when the error was detected.
    pub pos: u64,
    /// Error type.
    pub kind: ErrorKind,
}

impl Error {
    /// Pairs a byte position with an error kind.
    pub fn new(pos: u64, kind: ErrorKind) -> (r: Self)
        ensures
            r.pos == pos,
            r.kind == kind,
    {
        Error { pos, kind }
    }

    /// An equal error, to repeat a latched terminal result.
    pub fn duplicate(&self) -> (r: Self)
        ensures
            r == *self,
    {
        Error { pos: self.pos, kind: self.kind.duplicate() }
    }
}

/// Error type.
#[derive(Debug, Clone, PartialEq)]
pub enum ErrorKind {
    /// Conversion from an array of bytes to a string failed.
    Utf8Error,
    /// Invalid magic binary detected.
    InvalidMagic,
    /// Transport failure.
    Io,
    /// Corrupted or inconsistent FBX data detected.
    DataError(String),
    /// Got an unexpected value, and cannot continue parsing.
    ///
    /// This is a specialization of `DataError`.
    UnexpectedValue(String),
    /// Reached unexpected EOF.
    UnexpectedEof,
    /// Attempted to use an unimplemented feature.
    Unimplemented(String),
}

impl ErrorKind {
    /// An equal kind, to repeat a latched terminal result.
    pub fn duplicate(&self) -> (r: Self)
        ensures
            r == *self,
    {
        match self {
            ErrorKind::Utf8Error => ErrorKind::Utf8Error,
            ErrorKind::InvalidMagic => ErrorKind::InvalidMagic,
            ErrorKind::Io => ErrorKind::Io,
            ErrorKind::DataError(m) => ErrorKind::DataError(m.clone()),
            ErrorKind::UnexpectedValue(m) => ErrorKind::UnexpectedValue(m.clone()),
            ErrorKind::UnexpectedEof => ErrorKind::UnexpectedEof,
            ErrorKind::Unimplemented(m) => ErrorKind::Unimplemented(m.clone()),
        }
    }
}

/// The kind of a reader error with any message text abstracted away; the
/// parsing specification is phrased over these.
pub enum ErrorClass {
    /// See `ErrorKind::Utf8Error`.
    Utf8,
    /// See `ErrorKind::InvalidMagic`.
    InvalidMagic,
    /// See `ErrorKind::Io`.
    Io,
    /// See `ErrorKind::DataError`.
    Data,
    /// See `ErrorKind::UnexpectedValue`.
    UnexpectedValue,
    /// See `ErrorKind::UnexpectedEof`.
    Eof,
    /// See `ErrorKind::Unimplemented`.
    Unimplemented,
}

/// The class an error kind belongs to.
pub open spec fn class_of(k: ErrorKind) -> ErrorClass {
    match k {
        ErrorKind::Utf8Error => ErrorClass::Utf8,
        ErrorKind::InvalidMagic => ErrorClass::InvalidMagic,
        ErrorKind::Io => ErrorClass::Io,
        ErrorKind::DataError(_) => ErrorClass::Data,
        ErrorKind::UnexpectedValue(_) => ErrorClass::UnexpectedValue,
        ErrorKind::UnexpectedEof => ErrorClass::Eof,
        ErrorKind::Unimplemented(_) => ErrorClass::Unimplemented,
    }
}

} // verus!
