//! The top-level pull parser: magic detection, dispatch to the binary or
//! ASCII sub-parser, and the terminal latch.

use vstd::prelude::*;
use vstd::string::StringExecFns;

use crate::bytes::read_bytes;
use crate::bytes::read_u32_le;
use crate::common::FbxFormatType;
use crate::reader::ascii::AsciiParser;
use crate::reader::binary::BinaryParser;
use crate::reader::error::{class_of, Error, ErrorKind, Result};
use crate::reader::{FbxEvent, ParserConfig};
use crate::strconv::string_from_utf8;
use crate::wire::{
    fbx_magic, fbx_magic_bytes, first_term, lemma_binary_next_structure, lemma_magic_advances,
    spec_binary_next, spec_magic_next, EventData, MagicStep, NodeStep,
};

verus! {

/// The terminal result a finished parser repeats.
#[derive(Debug, Clone, PartialEq)]
pub enum Latch {
    /// The stream ended; every further pull yields `EndFbx`.
    Finished,
    /// The stream failed; every further pull repeats this error.
    Failed(Error),
}

/// State shared among the sub-parsers.
#[derive(Debug, Clone, PartialEq)]
pub struct CommonState {
    /// Position after the last successfully read byte.
    pub pos: usize,
    /// The terminal result, once one was reached.
    pub done: Option<Latch>,
}

/// Parser state, with the sub-parser where one is active.
#[derive(Debug, Clone)]
pub enum ParserState {
    /// Reading the magic (the first line).
    Magic,
    /// Reading binary FBX.
    Binary(BinaryParser),
    /// Reading ASCII FBX.
    Ascii(AsciiParser),
}

/// The mathematical content of a parser state.
pub enum StateView {
    /// Before the magic.
    Magic,
    /// Binary, with version and the stack of expected end offsets.
    Binary(u32, Seq<u64>),
    /// ASCII, with the lookahead buffer.
    Ascii(Seq<char>),
}

/// The view of a parser state.
pub open spec fn state_view_of(s: ParserState) -> StateView {
    match s {
        ParserState::Magic => StateView::Magic,
        ParserState::Binary(p) => StateView::Binary(p.version, p.end_offset_stack@),
        ParserState::Ascii(a) => StateView::Ascii(a.buffer@),
    }
}

/// A wrapper around the magic, binary and ASCII FBX parsers.
pub struct Parser {
    /// The configuration the parser was created with.
    pub config: ParserConfig,
    /// Position and latch.
    pub common: CommonState,
    /// Which sub-parser is active.
    pub state: ParserState,
}

/// What one pull of the parser does: `post` and `r` against `pre` over the
/// input `buf`.  This is the reader's central contract, by the state the
/// parser is in: before the magic it follows `spec_magic_next`; in a
/// binary stream it follows `spec_binary_next`; the ASCII grammar is
/// unimplemented and says so; and a terminal result repeats forever.
pub open spec fn next_spec(pre: Parser, buf: Seq<u8>, post: Parser, r: Result<FbxEvent>) -> bool {
    &&& (pre.common.done matches Some(Latch::Finished) ==> (r matches Ok(e) && e@
        == EventData::EndFbx && post == pre))
    &&& (pre.common.done matches Some(Latch::Failed(e0)) ==> (r matches Err(e1) && e1 == e0
        && post == pre))
    &&& (pre.common.done is None ==> match state_view_of(pre.state) {
        StateView::Magic => match spec_magic_next(buf, pre.common.pos as int) {
            MagicStep::MagicBinary(v, p) => ({
                &&& r matches Ok(e) && e@ == EventData::StartFbx(FbxFormatType::Binary(v))
                &&& post.common.pos == p
                &&& state_view_of(post.state) == StateView::Binary(v, Seq::<u64>::empty())
                &&& post.common.done is None
            }),
            MagicStep::MagicAscii(b0, p) => ({
                &&& r matches Ok(e) && e@ == EventData::StartFbx(FbxFormatType::Ascii)
                &&& post.common.pos == p
                &&& state_view_of(post.state) == StateView::Ascii(b0)
                &&& post.common.done is None
            }),
            MagicStep::MagicFail(c, p) => r matches Err(e) && class_of(e.kind) == c && e.pos == p
                && post.common.done == Some(Latch::Failed(e)),
        },
        StateView::Binary(v, st) => match spec_binary_next(buf, pre.common.pos as int, v, st) {
            NodeStep::NodeEvent(ev, p, st2) => ({
                &&& r matches Ok(e) && e@ == ev
                &&& post.common.pos == p
                &&& state_view_of(post.state) == StateView::Binary(v, st2)
                &&& post.common.done == (if ev is EndFbx {
                    Some(Latch::Finished)
                } else {
                    None
                })
            }),
            NodeStep::NodeFail(c, p) => r matches Err(e) && class_of(e.kind) == c && e.pos == p
                && post.common.done == Some(Latch::Failed(e)),
        },
        StateView::Ascii(_) => r matches Err(e) && e.kind is Unimplemented && e.pos
            == pre.common.pos && post.common.done == Some(Latch::Failed(e)),
    })
}

/// Second component of `spec_stream`'s termination measure: while the
/// position stands still only the stack of expected end offsets shrinks.
pub open spec fn stream_fuel(st: StateView) -> int {
    match st {
        StateView::Binary(_, stack) => stack.len() + 1int,
        _ => 0int,
    }
}

/// The full event stream that successive pulls from the given state yield
/// over the input: the events up to and including `EndFbx`, or nothing
/// when some pull fails.  After `StartFbx(Ascii)` the next pull reports
/// the unimplemented textual grammar, so no ASCII input has a full stream.
pub open spec fn spec_stream(buf: Seq<u8>, pos: int, st: StateView) -> Option<Seq<EventData>>
    decreases buf.len() - pos, stream_fuel(st),
    via spec_stream_decreases
{
    if pos < 0 || pos > buf.len() {
        Option::None
    } else {
        match st {
            StateView::Magic => match spec_magic_next(buf, pos) {
                MagicStep::MagicBinary(v, p) => match spec_stream(
                    buf,
                    p,
                    StateView::Binary(v, Seq::empty()),
                ) {
                    Option::Some(rest) => Option::Some(
                        seq![EventData::StartFbx(FbxFormatType::Binary(v))] + rest,
                    ),
                    Option::None => Option::None,
                },
                MagicStep::MagicAscii(_, _) => Option::None,
                MagicStep::MagicFail(_, _) => Option::None,
            },
            StateView::Binary(v, stack) => match spec_binary_next(buf, pos, v, stack) {
                NodeStep::NodeEvent(ev, p, st2) => if ev is EndFbx {
                    Option::Some(seq![EventData::EndFbx])
                } else {
                    match spec_stream(buf, p, StateView::Binary(v, st2)) {
                        Option::Some(rest) => Option::Some(seq![ev] + rest),
                        Option::None => Option::None,
                    }
                },
                NodeStep::NodeFail(_, _) => Option::None,
            },
            StateView::Ascii(_) => Option::None,
        }
    }
}

#[via_fn]
proof fn spec_stream_decreases(buf: Seq<u8>, pos: int, st: StateView) {
    if 0 <= pos && pos <= buf.len() {
        match st {
            StateView::Magic => {
                lemma_magic_advances(buf, pos);
            },
            StateView::Binary(v, stack) => {
                lemma_binary_next_structure(buf, pos, v, stack);
            },
            StateView::Ascii(_) => {},
        }
    }
}

/// Prepends already-pulled events to what the remaining pulls yield.
pub open spec fn stream_prepend(
    evs: Seq<EventData>,
    rest: Option<Seq<EventData>>,
) -> Option<Seq<EventData>> {
    match rest {
        Option::Some(r) => Option::Some(evs + r),
        Option::None => Option::None,
    }
}

/// Moving one pulled event from the pending stream into the finished
/// prefix.
pub proof fn lemma_stream_prepend_push(
    evs: Seq<EventData>,
    e: EventData,
    rest: Option<Seq<EventData>>,
)
    ensures
        stream_prepend(evs, stream_prepend(seq![e], rest)) == stream_prepend(evs.push(e), rest),
{
    match rest {
        Option::Some(r) => {
            assert(evs + (seq![e] + r) =~= evs.push(e) + r);
        },
        Option::None => {},
    }
}

impl Parser {
    /// Constructs a parser that expects the magic next.
    pub fn new(config: ParserConfig) -> (r: Self)
        ensures
            r.config == config,
            r.common.pos == 0,
            r.common.done is None,
            state_view_of(r.state) == StateView::Magic,
    {
        Parser { config, common: CommonState { pos: 0, done: None }, state: ParserState::Magic }
    }

    /// Reads the magic: the first line decides between the binary and the
    /// ASCII form.  Returns the event and, on success, the state to move to.
    fn magic_next(common: &mut CommonState, buf: &[u8]) -> (r: (
        Result<FbxEvent>,
        Option<ParserState>,
    ))
        requires
            old(common).pos <= buf@.len(),
        ensures
            old(common).pos <= final(common).pos <= buf@.len(),
            final(common).done == old(common).done,
            match spec_magic_next(buf@, old(common).pos as int) {
                MagicStep::MagicBinary(v, p) => ({
                    &&& r.0 matches Ok(e) && e@ == EventData::StartFbx(FbxFormatType::Binary(v))
                    &&& final(common).pos == p
                    &&& r.1 matches Some(st) && state_view_of(st) == StateView::Binary(
                        v,
                        Seq::<u64>::empty(),
                    )
                }),
                MagicStep::MagicAscii(b0, p) => ({
                    &&& r.0 matches Ok(e) && e@ == EventData::StartFbx(FbxFormatType::Ascii)
                    &&& final(common).pos == p
                    &&& r.1 matches Some(st) && state_view_of(st) == StateView::Ascii(b0)
                }),
                MagicStep::MagicFail(c, p) => (r.0 matches Err(e) && class_of(e.kind) == c && e.pos
                    == p && r.1 is None),
            },
    {
        let len = buf.len();
        let start = common.pos;
        let mut t = start;
        while t < len && buf[t] != 0 && buf[t] != 0x0a
            invariant
                start <= t <= len == buf@.len(),
                forall|j: int| start <= j < t ==> buf@[j] != 0 && buf@[j] != 0x0a,
            decreases len - t,
        {
            t = t + 1;
        }
        proof {
            lemma_first_term_from(buf@, start as int, t as int);
        }
        if t == len {
            common.pos = len;
            return (Err(Error::new(len as u64, ErrorKind::UnexpectedEof)), None);
        }
        if buf[t] == 0 {
            // A NUL terminator: binary FBX, if the line is the magic.
            let magic = fbx_magic_bytes();
            let mut is_magic = t - start == 20;
            if is_magic {
                let mut i: usize = 0;
                while i < 20
                    invariant
                        0 <= i <= 20,
                        t == start + 20,
                        t < len == buf@.len(),
                        magic@ == fbx_magic(),
                        is_magic == (forall|j: int| 0 <= j < i ==> buf@[start + j] == fbx_magic()[j]),
                    decreases 20 - i,
                {
                    is_magic = is_magic && (buf[start + i] == magic[i]);
                    i = i + 1;
                }
            }
            proof {
                let line = buf@.subrange(start as int, t as int);
                if is_magic {
                    assert(line =~= fbx_magic());
                } else {
                    if line == fbx_magic() {
                        assert(t - start == 20);
                        assert(forall|j: int|
                            0 <= j < 20 ==> line[j] == #[trigger] fbx_magic()[j]);
                        assert(forall|j: int|
                            0 <= j < 20 ==> #[trigger] buf@[start + j] == fbx_magic()[j]);
                        assert(false);
                    }
                }
            }
            if is_magic {
                common.pos = t + 1;
                // The two bytes after the magic are expected to be
                // `0x1a 0x00`; other values are tolerated.
                if len - common.pos < 2 {
                    return (Err(Error::new(common.pos as u64, ErrorKind::UnexpectedEof)), None);
                }
                common.pos = common.pos + 2;
                if len - common.pos < 4 {
                    return (Err(Error::new(common.pos as u64, ErrorKind::UnexpectedEof)), None);
                }
                let version = read_u32_le(buf, common.pos);
                common.pos = common.pos + 4;
                (
                    Ok(FbxEvent::StartFbx(FbxFormatType::Binary(version))),
                    Some(ParserState::Binary(BinaryParser::new(version))),
                )
            } else {
                common.pos = t + 1;
                (Err(Error::new(0, ErrorKind::InvalidMagic)), None)
            }
        } else {
            // A line feed: ASCII FBX.  A leading `;` line is a comment and
            // is dropped; any other first line becomes lookahead.
            common.pos = t + 1;
            let buffer: String;
            if t > start && buf[start] == 0x3b {
                buffer = String::new();
            } else {
                let line = read_bytes(buf, start, t - start);
                match string_from_utf8(line) {
                    Some(mut s) => {
                        s.append("\n");
                        proof {
                            reveal_strlit("\n");
                            assert(s@ =~= vstd::utf8::decode_utf8(
                                buf@.subrange(start as int, t as int),
                            ) + seq!['\n']);
                        }
                        buffer = s;
                    },
                    None => {
                        return (Err(Error::new(common.pos as u64, ErrorKind::Utf8Error)), None);
                    },
                }
            }
            (
                Ok(FbxEvent::StartFbx(FbxFormatType::Ascii)),
                Some(ParserState::Ascii(AsciiParser::new(buffer))),
            )
        }
    }

    /// Gets the next event, or repeats the terminal result.
    pub fn next(&mut self, buf: &[u8]) -> (r: Result<FbxEvent>)
        requires
            old(self).common.pos <= buf@.len(),
        ensures
            old(self).common.pos <= final(self).common.pos <= buf@.len(),
            final(self).config == old(self).config,
            next_spec(*old(self), buf@, *final(self), r),
    {
        match &self.common.done {
            Some(Latch::Finished) => {
                return Ok(FbxEvent::EndFbx);
            },
            Some(Latch::Failed(e)) => {
                return Err(e.duplicate());
            },
            None => {},
        }
        let mut new_state: Option<ParserState> = None;
        let result: Result<FbxEvent>;
        match &mut self.state {
            ParserState::Magic => {
                let (r0, st) = Parser::magic_next(&mut self.common, buf);
                result = r0;
                new_state = st;
            },
            ParserState::Binary(p) => {
                result = p.next(buf, &mut self.common);
            },
            ParserState::Ascii(a) => {
                result = a.next(&mut self.common);
            },
        }
        if let Some(st) = new_state {
            self.state = st;
        }
        match &result {
            Ok(e) => {
                if matches!(e, FbxEvent::EndFbx) {
                    self.common.done = Some(Latch::Finished);
                }
            },
            Err(e) => {
                self.common.done = Some(Latch::Failed(e.duplicate()));
            },
        }
        result
    }
}

/// A scan that stopped at the first NUL or line feed found the position
/// `first_term` names.
pub proof fn lemma_first_term_from(b: Seq<u8>, pos: int, t: int)
    requires
        0 <= pos <= t <= b.len(),
        forall|j: int| pos <= j < t ==> b[j] != 0 && b[j] != 0x0a,
        t == b.len() || b[t] == 0 || b[t] == 0x0a,
    ensures
        first_term(b, pos) == t,
    decreases t - pos,
{
    if pos < t {
        lemma_first_term_from(b, pos + 1, t);
    }
}

} // verus!
