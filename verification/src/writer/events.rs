//! The event type the writer consumes.

use vstd::prelude::*;

use crate::common::{bprops_view, FbxFormatType, Property};
use crate::wire::EventData;

verus! {

/// A node of an FBX output stream, as handed to `EventWriter`.
///
/// Buffers are borrowed from the caller, so that emission copies nothing.
#[derive(Debug, Clone)]
pub enum FbxEvent<'a> {
    /// Denotes start of FBX data.
    ///
    /// For binary FBX, this item corresponds to the magic.  It must be
    /// written before any other event.
    StartFbx(FbxFormatType),
    /// Denotes end of FBX data.
    EndFbx,
    /// Denotes beginning of a node.
    StartNode {
        /// Node name.
        name: &'a str,
        /// Node properties.
        properties: Vec<Property<'a>>,
    },
    /// Denotes end of a node.
    EndNode,
    /// Comment.
    ///
    /// A comment can be written only to ASCII FBX.
    Comment(&'a str),
}

impl<'a> View for FbxEvent<'a> {
    type V = EventData;

    open spec fn view(&self) -> EventData {
        match self {
            FbxEvent::StartFbx(f) => EventData::StartFbx(*f),
            FbxEvent::EndFbx => EventData::EndFbx,
            FbxEvent::StartNode { name, properties } => EventData::StartNode {
                name: name@,
                properties: bprops_view(properties@),
            },
            FbxEvent::EndNode => EventData::EndNode,
            FbxEvent::Comment(s) => EventData::Comment(s@),
        }
    }
}

} // verus!
