//! The ASCII FBX parser.
//!
//! Recognizing the textual form and handing over to it is implemented in
//! the magic scanner; reading node bodies from the textual grammar is not,
//! and every pull reports that.

use vstd::prelude::*;

use crate::reader::error::{Error, ErrorKind, Result};
use crate::reader::parser::CommonState;
use crate::reader::FbxEvent;

verus! {

/// A parser for ASCII FBX.
#[derive(Debug, Clone)]
pub struct AsciiParser {
    /// Lookahead: what of the current line has been read but not consumed.
    pub buffer: String,
}

impl AsciiParser {
    /// Constructs an ASCII FBX parser with the given initial lookahead.
    pub fn new(buffer: String) -> (r: Self)
        ensures
            r.buffer@ == buffer@,
    {
        AsciiParser { buffer }
    }

    /// One pull: reading ASCII node bodies is unimplemented, and this says
    /// so at the current position.
    pub fn next(&mut self, common: &mut CommonState) -> (r: Result<FbxEvent>)
        ensures
            *final(common) == *old(common),
            *final(self) == *old(self),
            r matches Err(e) && e.kind is Unimplemented && e.pos == old(common).pos,
    {
        Err(
            Error::new(
                common.pos as u64,
                ErrorKind::Unimplemented(
                    "Parser for ASCII FBX format is not implemented yet".to_owned(),
                ),
            ),
        )
    }
}

} // verus!
