//! High-level interface for a pull-based FBX parser.

use vstd::prelude::*;

use crate::common::{props_view, FbxFormatType, OwnedProperty};
use crate::wire::EventData;

use self::error::Result;
use self::parser::{
    lemma_stream_prepend_push, next_spec, spec_stream, state_view_of, stream_prepend, Latch,
    Parser, StateView,
};

pub mod ascii;
pub mod binary;
pub mod error;
pub mod parser;

pub use self::error::Error;
pub use self::error::ErrorKind;

verus! {

/// A node of an FBX input stream, as emitted by `EventReader`.
#[derive(Debug, Clone, PartialEq)]
pub enum FbxEvent {
    /// Denotes start of FBX data.
    ///
    /// For binary FBX, this item corresponds to the magic.
    StartFbx(FbxFormatType),
    /// Denotes end of FBX data.
    ///
    /// The binary parser stops before the footer; it does not read to the
    /// last byte of the stream.
    EndFbx,
    /// Denotes beginning of a node.
    StartNode {
        /// Node name.
        name: String,
        /// Node properties.
        properties: Vec<OwnedProperty>,
    },
    /// Denotes end of a node.
    EndNode,
    /// Comment.
    ///
    /// A comment only appears in ASCII FBX.
    Comment(String),
}

impl View for FbxEvent {
    type V = EventData;

    open spec fn view(&self) -> EventData {
        match self {
            FbxEvent::StartFbx(f) => EventData::StartFbx(*f),
            FbxEvent::EndFbx => EventData::EndFbx,
            FbxEvent::StartNode { name, properties } => EventData::StartNode {
                name: name@,
                properties: props_view(properties@),
            },
            FbxEvent::EndNode => EventData::EndNode,
            FbxEvent::Comment(s) => EventData::Comment(s@),
        }
    }
}

impl FbxEvent {
    /// The same event in the writer's borrowed shape, for handing a read
    /// event straight back to a writer.
    pub fn as_writer_event(&self) -> (r: crate::writer::FbxEvent<'_>)
        ensures
            r@ == self@,
    {
        match self {
            FbxEvent::StartFbx(f) => crate::writer::FbxEvent::StartFbx(*f),
            FbxEvent::EndFbx => crate::writer::FbxEvent::EndFbx,
            FbxEvent::StartNode { name, properties } => {
                let mut props: Vec<crate::common::Property<'_>> = Vec::new();
                let n = properties.len();
                let mut i: usize = 0;
                proof {
                    assert(crate::common::bprops_view(props@) =~= props_view(
                        properties@.take(0),
                    ));
                }
                while i < n
                    invariant
                        i <= n == properties@.len(),
                        props@.len() == i,
                        crate::common::bprops_view(props@) == props_view(
                            properties@.take(i as int),
                        ),
                    decreases n - i,
                {
                    props.push(properties[i].borrow());
                    i = i + 1;
                    proof {
                        let lhs = crate::common::bprops_view(props@);
                        let rhs = props_view(properties@.take(i as int));
                        assert(lhs.len() == props@.len());
                        assert(props@.len() == i);
                        assert(properties@.take(i as int).len() == i);
                        assert(rhs.len() == properties@.take(i as int).len());
                        assert(lhs.len() == rhs.len());
                        assert forall|j: int| 0 <= j < i implies lhs[j] == rhs[j] by {
                            assert(lhs[j] == props@[j]@);
                            assert(rhs[j] == properties@.take(i as int)[j]@);
                            if j < i - 1 {
                                let pj = props@[j];
                                assert(crate::common::bprops_view(props@.drop_last())[j] == pj@);
                                assert(props_view(properties@.take(i - 1))[j] == properties@[j]@);
                            }
                        }
                        assert(lhs =~= rhs);
                    }
                }
                proof {
                    assert(properties@.take(n as int) =~= properties@);
                }
                crate::writer::FbxEvent::StartNode { name: name.as_str(), properties: props }
            },
            FbxEvent::EndNode => crate::writer::FbxEvent::EndNode,
            FbxEvent::Comment(s) => crate::writer::FbxEvent::Comment(s.as_str()),
        }
    }
}

/// The views of a sequence of events.
pub open spec fn events_view(evs: Seq<FbxEvent>) -> Seq<EventData> {
    evs.map_values(|e: FbxEvent| e@)
}

/// How an event changes the node nesting depth.
pub open spec fn event_delta(e: EventData) -> int {
    match e {
        EventData::StartNode { .. } => 1,
        EventData::EndNode => -1,
        _ => 0,
    }
}

/// Nesting depth after the whole sequence.
pub open spec fn depth_after(evs: Seq<EventData>) -> int
    decreases evs.len(),
{
    if evs.len() == 0 {
        0
    } else {
        depth_after(evs.drop_last()) + event_delta(evs.last())
    }
}

/// The shape every accepted binary stream has: exactly one `StartFbx`
/// first and one `EndFbx` last, only node events between them, and
/// `StartNode`/`EndNode` balanced and strictly nested (no prefix closes
/// more nodes than it opened, and the whole closes all).
pub open spec fn well_formed_stream(evs: Seq<EventData>) -> bool {
    &&& evs.len() >= 2
    &&& evs[0] is StartFbx
    &&& evs.last() is EndFbx
    &&& (forall|i: int|
        0 < i < evs.len() - 1 ==> (#[trigger] evs[i] is StartNode || evs[i] is EndNode))
    &&& (forall|i: int| 0 <= i <= evs.len() ==> depth_after(#[trigger] evs.take(i)) >= 0)
    &&& depth_after(evs) == 0
}

/// Appending one event adds its delta to the depth.
proof fn lemma_depth_push(evs: Seq<EventData>, e: EventData)
    ensures
        depth_after(evs.push(e)) == depth_after(evs) + event_delta(e),
{
    assert(evs.push(e).drop_last() =~= evs);
    assert(evs.push(e).last() == e);
}

/// A reader which provides pull-based FBX parsing over a byte buffer.
pub struct EventReader {
    /// The whole input.
    pub source: Vec<u8>,
    /// The parser state.
    pub parser: Parser,
}

impl EventReader {
    /// The parser never stands beyond the end of the input.
    pub open spec fn wf(&self) -> bool {
        self.parser.common.pos <= self.source@.len()
    }

    /// Creates a new reader over the given bytes.
    pub fn new(source: Vec<u8>) -> (r: Self)
        ensures
            r.wf(),
            r.source@ == source@,
            r.parser.common.pos == 0,
            r.parser.common.done is None,
            state_view_of(r.parser.state) == StateView::Magic,
            r.parser.config == (ParserConfig { ignore_comments: false }),
    {
        EventReader { source, parser: Parser::new(ParserConfig::new()) }
    }

    /// Creates a new reader with the provided configuration.
    pub fn new_with_config(source: Vec<u8>, config: ParserConfig) -> (r: Self)
        ensures
            r.wf(),
            r.source@ == source@,
            r.parser.common.pos == 0,
            r.parser.common.done is None,
            state_view_of(r.parser.state) == StateView::Magic,
            r.parser.config == config,
    {
        EventReader { source, parser: Parser::new(config) }
    }

    /// Pulls and returns the next FBX event from the input.
    ///
    /// The position only moves forward from pull to pull.
    pub fn next(&mut self) -> (r: Result<FbxEvent>)
        requires
            old(self).wf(),
        ensures
            final(self).wf(),
            final(self).source == old(self).source,
            old(self).parser.common.pos <= final(self).parser.common.pos,
            next_spec(old(self).parser, old(self).source@, final(self).parser, r),
    {
        self.parser.next(self.source.as_slice())
    }

    /// Current position: the count of bytes consumed so far.
    pub fn position(&self) -> (r: u64)
        ensures
            r == self.parser.common.pos,
    {
        self.parser.common.pos as u64
    }

    /// Consumes the reader and returns an iterator-like pull handle over it.
    pub fn into_iter(self) -> (r: Events)
        ensures
            r.reader == self,
            !r.finished,
    {
        Events { reader: self, finished: false }
    }

    /// Pulls events until the terminal one.  On success the result is the
    /// whole event stream — exactly what `spec_stream` says the successive
    /// pulls yield over this input — and it is well shaped: it begins with
    /// one `StartFbx`, ends with one `EndFbx`, holds only balanced,
    /// strictly nested node events between them, and no comment.
    pub fn read_to_end(&mut self) -> (r: Result<Vec<FbxEvent>>)
        requires
            old(self).wf(),
            old(self).parser.common.done is None,
            state_view_of(old(self).parser.state) == StateView::Magic,
        ensures
            final(self).wf(),
            r matches Ok(evs) ==> well_formed_stream(events_view(evs@)) && spec_stream(
                old(self).source@,
                old(self).parser.common.pos as int,
                StateView::Magic,
            ) == Some(events_view(evs@)) && final(self).parser.common.done == Some(Latch::Finished),
            r matches Err(e) ==> spec_stream(
                old(self).source@,
                old(self).parser.common.pos as int,
                StateView::Magic,
            ) is None && final(self).parser.common.done == Some(Latch::Failed(e)),
    {
        let ghost buf0 = old(self).source@;
        let ghost pos0 = old(self).parser.common.pos as int;
        let ghost whole = spec_stream(buf0, pos0, StateView::Magic);
        let mut events: Vec<FbxEvent> = Vec::new();
        proof {
            match whole {
                Option::Some(w) => {
                    assert(Seq::<EventData>::empty() + w =~= w);
                },
                Option::None => {},
            }
            assert(events_view(events@) =~= Seq::<EventData>::empty());
        }
        loop
            invariant
                self.wf(),
                buf0 == old(self).source@,
                pos0 == old(self).parser.common.pos as int,
                self.source@ == buf0,
                whole == spec_stream(buf0, pos0, StateView::Magic),
                stream_prepend(
                    events_view(events@),
                    spec_stream(
                        buf0,
                        self.parser.common.pos as int,
                        state_view_of(self.parser.state),
                    ),
                ) == whole,
                match state_view_of(self.parser.state) {
                    StateView::Magic => events@.len() == 0 && self.parser.common.done is None,
                    StateView::Binary(v, st) => {
                        &&& self.parser.common.done is None
                        &&& events@.len() >= 1
                        &&& events_view(events@)[0] == EventData::StartFbx(
                            FbxFormatType::Binary(v),
                        )
                        &&& depth_after(events_view(events@)) == st.len()
                        &&& (forall|i: int|
                            0 < i < events@.len() ==> (#[trigger] events_view(events@)[i]
                                is StartNode || events_view(events@)[i] is EndNode))
                        &&& (forall|i: int|
                            0 <= i <= events@.len() ==> depth_after(
                                #[trigger] events_view(events@).take(i),
                            ) >= 0)
                    },
                    StateView::Ascii(_) => self.parser.common.done is None,
                },
            decreases
                    self.source@.len() - self.parser.common.pos,
                    (match state_view_of(self.parser.state) {
                        StateView::Binary(_, st) => st.len() + 1,
                        _ => 0,
                    }),
        {
            let ghost pre = self.parser;
            let ghost buf = self.source@;
            proof {
                match state_view_of(pre.state) {
                    StateView::Binary(v, st) => {
                        crate::wire::lemma_binary_next_structure(buf, pre.common.pos as int, v, st);
                    },
                    StateView::Magic => {
                        crate::wire::lemma_magic_advances(buf, pre.common.pos as int);
                    },
                    StateView::Ascii(_) => {},
                }
            }
            let ev = match self.parser.next(self.source.as_slice()) {
                Ok(ev) => ev,
                Err(e) => {
                    proof {
                        // The pending stream from the failing state is
                        // nothing, so the whole stream is nothing.
                        assert(spec_stream(
                            buf0,
                            pre.common.pos as int,
                            state_view_of(pre.state),
                        ) is None);
                    }
                    return Err(e);
                },
            };
            let ghost old_events = events@;
            let is_end = matches!(ev, FbxEvent::EndFbx);
            events.push(ev);
            proof {
                assert(events_view(events@) =~= events_view(old_events).push(ev@));
                lemma_depth_push(events_view(old_events), ev@);
                assert forall|i: int| 0 <= i <= events@.len() implies depth_after(
                    #[trigger] events_view(events@).take(i),
                ) >= 0 by {
                    if i <= old_events.len() {
                        assert(events_view(events@).take(i) =~= events_view(old_events).take(i));
                        assert(events_view(old_events).take(old_events.len() as int) =~= events_view(
                            old_events,
                        ));
                    } else {
                        assert(events_view(events@).take(i) =~= events_view(events@));
                    }
                }
                // One pulled event moves from the pending stream into the
                // finished prefix.
                let pending = spec_stream(buf0, pre.common.pos as int, state_view_of(pre.state));
                if !(ev@ is EndFbx) {
                    assert(pending == stream_prepend(
                        seq![ev@],
                        spec_stream(
                            buf0,
                            self.parser.common.pos as int,
                            state_view_of(self.parser.state),
                        ),
                    ));
                    lemma_stream_prepend_push(
                        events_view(old_events),
                        ev@,
                        spec_stream(
                            buf0,
                            self.parser.common.pos as int,
                            state_view_of(self.parser.state),
                        ),
                    );
                }
            }
            if is_end {
                proof {
                    assert(events_view(events@).last() == ev@);
                    assert(spec_stream(buf0, pre.common.pos as int, state_view_of(pre.state))
                        == Some(seq![EventData::EndFbx]));
                    assert(events_view(old_events) + seq![EventData::EndFbx] =~= events_view(
                        events@,
                    ));
                }
                return Ok(events);
            }
        }
    }
}

/// An iterator-like handle over FBX events.
///
/// Once the terminal event — `EndFbx` or an error — was returned, `next`
/// yields nothing more.
pub struct Events {
    /// The underlying reader.
    pub reader: EventReader,
    /// Whether the terminal event was already handed out.
    pub finished: bool,
}

impl Events {
    /// Returns the internal reader.
    pub fn into_inner(self) -> (r: EventReader)
        ensures
            r == self.reader,
    {
        self.reader
    }

    /// The next event, or nothing after the terminal one.
    pub fn next(&mut self) -> (r: Option<Result<FbxEvent>>)
        requires
            old(self).reader.wf(),
        ensures
            final(self).reader.wf(),
            old(self).finished ==> r is None && *final(self) == *old(self),
            !old(self).finished ==> match r {
                Some(ev) => next_spec(
                    old(self).reader.parser,
                    old(self).reader.source@,
                    final(self).reader.parser,
                    ev,
                ) && (final(self).finished <==> (ev matches Ok(e) && e@ == EventData::EndFbx || ev
                    is Err)),
                None => false,
            },
    {
        if self.finished {
            None
        } else {
            let ev = self.reader.next();
            match &ev {
                Ok(e) => {
                    if matches!(e, FbxEvent::EndFbx) {
                        self.finished = true;
                    }
                },
                Err(_) => {
                    self.finished = true;
                },
            }
            Some(ev)
        }
    }
}

/// Configuration of an `EventReader`.
#[derive(Debug, Clone, Copy, PartialEq, Eq, Structural)]
pub struct ParserConfig {
    /// Whether comment events are suppressed.
    pub ignore_comments: bool,
}

impl ParserConfig {
    /// Creates a new config with default options.
    pub fn new() -> (r: Self)
        ensures
            r == (ParserConfig { ignore_comments: false }),
    {
        ParserConfig { ignore_comments: false }
    }

    /// Creates an FBX reader with this configuration.
    pub fn create_reader(self, source: Vec<u8>) -> (r: EventReader)
        ensures
            r.wf(),
            r.source@ == source@,
            r.parser.common.pos == 0,
            r.parser.common.done is None,
            state_view_of(r.parser.state) == StateView::Magic,
            r.parser.config == self,
    {
        EventReader::new_with_config(source, self)
    }

    /// Sets the field to the provided value and returns the updated config.
    pub fn ignore_comments(self, value: bool) -> (r: Self)
        ensures
            r == (ParserConfig { ignore_comments: value }),
    {
        ParserConfig { ignore_comments: value }
    }
}

impl Default for ParserConfig {
    fn default() -> (r: ParserConfig)
        ensures
            r == (ParserConfig { ignore_comments: false }),
    {
        ParserConfig::new()
    }
}

} // verus!
