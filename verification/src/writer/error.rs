//! Result and error type for the FBX writer.

use vstd::prelude::*;

verus! {

/// A specialized result type for FBX exporting.
pub type Result<T> = core::result::Result<T, Error>;

/// An FBX exporting error.
#[derive(Debug, Clone, PartialEq)]
pub enum Error {
    /// An `EndNode` event is given but there is no node to close.
    ExtraEndNode,
    /// FBX not started but an event other than `StartFbx` is given.
    FbxNotStarted,
    /// FBX is already started but `StartFbx` is given.
    FbxAlreadyStarted,
    /// Unsupported FBX version.
    UnsupportedFbxVersion(u32),
    /// The given event is not writable in the current format.
    UnwritableEvent,
    /// A value does not fit the field width the format gives it.
    DataTooLarge(String),
    /// The writer configuration and the given events disagree.
    InvalidOption(String),
    /// Unimplemented feature.
    Unimplemented(String),
}

impl Error {
    /// An equal error, to repeat a latched terminal result.
    pub fn duplicate(&self) -> (r: Self)
        ensures
            r == *self,
    {
        match self {
            Error::ExtraEndNode => Error::ExtraEndNode,
            Error::FbxNotStarted => Error::FbxNotStarted,
            Error::FbxAlreadyStarted => Error::FbxAlreadyStarted,
            Error::UnsupportedFbxVersion(v) => Error::UnsupportedFbxVersion(*v),
            Error::UnwritableEvent => Error::UnwritableEvent,
            Error::DataTooLarge(m) => Error::DataTooLarge(m.clone()),
            Error::InvalidOption(m) => Error::InvalidOption(m.clone()),
            Error::Unimplemented(m) => Error::Unimplemented(m.clone()),
        }
    }
}

} // verus!
