//! A pull-based event reader and an event-driven writer for the FBX
//! 3D-interchange format, covering its binary serialization and (partially)
//! its ASCII serialization.

mod b64;
mod bytes;
mod compress;
mod floatbits;
mod fmtnum;
mod strconv;

pub mod common;
pub mod error;
pub mod laws;
pub mod reader;
pub mod wire;
pub mod writer;

pub use crate::reader::EventReader;
pub use crate::writer::EventWriter;
