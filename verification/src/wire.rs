//! The binary FBX wire format, as specification functions.
//!
//! `spec_magic_next`, `spec_binary_next` and the property readers below
//! are total functions from the input bytes (and the parser's position and
//! stack of expected end offsets) to the step the reader must take: which
//! event comes next, where the position lands, or which error arises and
//! at which position.  The executable parser is proved to follow them
//! exactly; the emitter's output is described by the `enc_*` functions at
//! the end, over the same byte model.

use vstd::prelude::*;
use vstd::utf8::{decode_utf8, valid_utf8};

use vstd::bytes::{spec_u16_to_le_bytes, spec_u32_to_le_bytes, spec_u64_to_le_bytes};
use vstd::utf8::encode_utf8;

use crate::bytes::{le_i16, le_i32, le_i64, le_u32, le_u64};
use crate::common::{FbxFormatType, PropData};
use crate::compress::{deflate_of, inflate_of};
use crate::reader::error::ErrorClass;

verus! {

/// Type code of a boolean property (`C`).
pub const TC_BOOL: u8 = 0x43;

/// Type code of a 2 byte signed integer property (`Y`).
pub const TC_I16: u8 = 0x59;

/// Type code of a 4 byte signed integer property (`I`).
pub const TC_I32: u8 = 0x49;

/// Type code of an 8 byte signed integer property (`L`).
pub const TC_I64: u8 = 0x4c;

/// Type code of a single-precision property (`F`).
pub const TC_F32: u8 = 0x46;

/// Type code of a double-precision property (`D`).
pub const TC_F64: u8 = 0x44;

/// Type code of a boolean array property (`b`).
pub const TC_ARR_BOOL: u8 = 0x62;

/// Type code of a 4 byte signed integer array property (`i`).
pub const TC_ARR_I32: u8 = 0x69;

/// Type code of an 8 byte signed integer array property (`l`).
pub const TC_ARR_I64: u8 = 0x6c;

/// Type code of a single-precision array property (`f`).
pub const TC_ARR_F32: u8 = 0x66;

/// Type code of a double-precision array property (`d`).
pub const TC_ARR_F64: u8 = 0x64;

/// Type code of a string property (`S`).
pub const TC_STRING: u8 = 0x53;

/// Type code of a raw binary property (`R`).
pub const TC_BINARY: u8 = 0x52;

/// The boolean property byte denoting true (`Y`).
pub const BOOL_TRUE: u8 = 0x59;

/// The boolean property byte denoting false (`T`).
pub const BOOL_FALSE: u8 = 0x54;

/// An event of an FBX stream, as a mathematical value: the view of both
/// the reader's and the writer's event type.
pub enum EventData {
    /// Denotes start of FBX data.
    StartFbx(FbxFormatType),
    /// Denotes end of FBX data.
    EndFbx,
    /// Denotes beginning of a node.
    StartNode { name: Seq<char>, properties: Seq<PropData> },
    /// Denotes end of a node.
    EndNode,
    /// Comment (ASCII form only).
    Comment(Seq<char>),
}

/// Byte width of the three counted node-header fields: 4 below version
/// 7500, 8 at or above it.
pub open spec fn field_width(version: u32) -> int {
    if version < 7500 {
        4int
    } else {
        8int
    }
}

/// Byte size of a whole node-record header (13 or 25).
pub open spec fn header_size(version: u32) -> int {
    3 * field_width(version) + 1
}

/// A counted header field, widened to 64 bits.
pub open spec fn le_field(b: Seq<u8>, pos: int, version: u32) -> u64 {
    if version < 7500 {
        le_u32(b, pos) as u64
    } else {
        le_u64(b, pos)
    }
}

/// The magic bytes opening a binary FBX stream: `"Kaydara FBX Binary  "`.
pub open spec fn fbx_magic() -> Seq<u8> {
    seq![
        0x4bu8,
        0x61,
        0x79,
        0x64,
        0x61,
        0x72,
        0x61,
        0x20,
        0x46,
        0x42,
        0x58,
        0x20,
        0x42,
        0x69,
        0x6e,
        0x61,
        0x72,
        0x79,
        0x20,
        0x20,
    ]
}

/// Position of the first NUL or line-feed byte at or after `pos`
/// (`b.len()` when there is none).
pub open spec fn first_term(b: Seq<u8>, pos: int) -> int
    decreases b.len() - pos,
{
    if pos < 0 || pos >= b.len() {
        b.len() as int
    } else if b[pos] == 0 || b[pos] == 0x0a {
        pos
    } else {
        first_term(b, pos + 1)
    }
}

/// What reading the magic does: the stream's format plus the position
/// after the header, or an error.
pub enum MagicStep {
    /// Binary FBX with the given version.
    MagicBinary(u32, int),
    /// ASCII FBX; the first line, unless it was a comment, becomes the
    /// line scanner's lookahead buffer.
    MagicAscii(Seq<char>, int),
    /// Failure, with class and position.
    MagicFail(ErrorClass, int),
}

/// Reads the magic: bytes up to the first NUL (binary) or line feed
/// (ASCII), then for binary the `0x1a 0x00` trailer and the version word.
/// A NUL-terminated prefix that is not the magic names the whole stream
/// unusable, so that failure is reported at position 0.
pub open spec fn spec_magic_next(b: Seq<u8>, pos: int) -> MagicStep {
    let t = first_term(b, pos);
    if t >= b.len() {
        MagicStep::MagicFail(ErrorClass::Eof, b.len() as int)
    } else {
        let line = b.subrange(pos, t);
        if b[t] == 0 {
            if line == fbx_magic() {
                if t + 3 > b.len() {
                    MagicStep::MagicFail(ErrorClass::Eof, t + 1)
                } else if t + 7 > b.len() {
                    MagicStep::MagicFail(ErrorClass::Eof, t + 3)
                } else {
                    MagicStep::MagicBinary(le_u32(b, t + 3), t + 7)
                }
            } else {
                MagicStep::MagicFail(ErrorClass::InvalidMagic, 0)
            }
        } else {
            if line.len() > 0 && line[0] == 0x3b {
                MagicStep::MagicAscii(Seq::empty(), t + 1)
            } else if valid_utf8(line) {
                MagicStep::MagicAscii(decode_utf8(line) + seq!['\n'], t + 1)
            } else {
                MagicStep::MagicFail(ErrorClass::Utf8, t + 1)
            }
        }
    }
}

/// Element byte size of an array property.
pub open spec fn elem_size(code: u8) -> int {
    if code == TC_ARR_F64 || code == TC_ARR_I64 {
        8int
    } else if code == TC_ARR_F32 || code == TC_ARR_I32 {
        4int
    } else {
        1int
    }
}

/// Whether `code` opens an array property.
pub open spec fn is_array_code(code: u8) -> bool {
    code == TC_ARR_F32 || code == TC_ARR_F64 || code == TC_ARR_I64 || code == TC_ARR_I32
        || code == TC_ARR_BOOL
}

/// The `n` little-endian `i32` elements at `pos`.
pub open spec fn els_i32(b: Seq<u8>, pos: int, n: int) -> Seq<i32> {
    Seq::new(n as nat, |k: int| le_i32(b, pos + 4 * k))
}

/// The `n` little-endian `i64` elements at `pos`.
pub open spec fn els_i64(b: Seq<u8>, pos: int, n: int) -> Seq<i64> {
    Seq::new(n as nat, |k: int| le_i64(b, pos + 8 * k))
}

/// The `n` little-endian single-precision bit patterns at `pos`.
pub open spec fn els_f32(b: Seq<u8>, pos: int, n: int) -> Seq<u32> {
    Seq::new(n as nat, |k: int| le_u32(b, pos + 4 * k))
}

/// The `n` little-endian double-precision bit patterns at `pos`.
pub open spec fn els_f64(b: Seq<u8>, pos: int, n: int) -> Seq<u64> {
    Seq::new(n as nat, |k: int| le_u64(b, pos + 8 * k))
}

/// The `n` boolean elements at `pos`: each byte's least significant bit.
pub open spec fn els_bool(b: Seq<u8>, pos: int, n: int) -> Seq<bool> {
    Seq::new(n as nat, |k: int| b[pos + k] % 2 == 1)
}

/// The array property value with the given code, read from `n` elements
/// starting at `pos`.
pub open spec fn spec_prop_elems(code: u8, raw: Seq<u8>, pos: int, n: int) -> PropData {
    if code == TC_ARR_F32 {
        PropData::VecF32(els_f32(raw, pos, n))
    } else if code == TC_ARR_F64 {
        PropData::VecF64(els_f64(raw, pos, n))
    } else if code == TC_ARR_I64 {
        PropData::VecI64(els_i64(raw, pos, n))
    } else if code == TC_ARR_I32 {
        PropData::VecI32(els_i32(raw, pos, n))
    } else {
        PropData::VecBool(els_bool(raw, pos, n))
    }
}

/// Reads an array property's body at `pos`, after its 12-byte header gave
/// the element count `n`, the `enc`oding, and the compressed length `clen`.
pub open spec fn spec_read_array(b: Seq<u8>, pos: int, code: u8, n: int, enc: u32, clen: int) -> PropStep {
    if enc == 0 {
        let total = n * elem_size(code);
        if pos + total > b.len() {
            PropStep::PropFail(ErrorClass::Eof, pos)
        } else {
            PropStep::PropDone(spec_prop_elems(code, b, pos, n), pos + total)
        }
    } else if enc == 1 {
        if pos + clen > b.len() {
            PropStep::PropFail(ErrorClass::Eof, pos)
        } else {
            match inflate_of(b.subrange(pos, pos + clen)) {
                Option::None => PropStep::PropFail(ErrorClass::Data, pos),
                Option::Some(raw) => if raw.len() < n * elem_size(code) {
                    PropStep::PropFail(ErrorClass::Eof, pos)
                } else {
                    PropStep::PropDone(spec_prop_elems(code, raw, 0, n), pos + clen)
                },
            }
        }
    } else {
        PropStep::PropFail(ErrorClass::UnexpectedValue, pos)
    }
}

/// What reading one property does.
pub enum PropStep {
    /// The property and the position after it.
    PropDone(PropData, int),
    /// Failure, with class and position.
    PropFail(ErrorClass, int),
}

/// Reads one property at `pos`: a type code byte, then the payload that
/// code dictates.
pub open spec fn spec_read_prop(b: Seq<u8>, pos: int) -> PropStep {
    if pos + 1 > b.len() {
        PropStep::PropFail(ErrorClass::Eof, pos)
    } else {
        let code = b[pos];
        let p1 = pos + 1;
        if code > 0x7f {
            PropStep::PropFail(ErrorClass::Data, pos)
        } else if code == TC_BOOL {
            if p1 + 1 > b.len() {
                PropStep::PropFail(ErrorClass::Eof, p1)
            } else {
                PropStep::PropDone(PropData::Bool(b[p1] % 2 == 1), p1 + 1)
            }
        } else if code == TC_I16 {
            if p1 + 2 > b.len() {
                PropStep::PropFail(ErrorClass::Eof, p1)
            } else {
                PropStep::PropDone(PropData::I16(le_i16(b, p1)), p1 + 2)
            }
        } else if code == TC_I32 {
            if p1 + 4 > b.len() {
                PropStep::PropFail(ErrorClass::Eof, p1)
            } else {
                PropStep::PropDone(PropData::I32(le_i32(b, p1)), p1 + 4)
            }
        } else if code == TC_I64 {
            if p1 + 8 > b.len() {
                PropStep::PropFail(ErrorClass::Eof, p1)
            } else {
                PropStep::PropDone(PropData::I64(le_i64(b, p1)), p1 + 8)
            }
        } else if code == TC_F32 {
            if p1 + 4 > b.len() {
                PropStep::PropFail(ErrorClass::Eof, p1)
            } else {
                PropStep::PropDone(PropData::F32(le_u32(b, p1)), p1 + 4)
            }
        } else if code == TC_F64 {
            if p1 + 8 > b.len() {
                PropStep::PropFail(ErrorClass::Eof, p1)
            } else {
                PropStep::PropDone(PropData::F64(le_u64(b, p1)), p1 + 8)
            }
        } else if code == TC_STRING {
            if p1 + 4 > b.len() {
                PropStep::PropFail(ErrorClass::Eof, p1)
            } else {
                let len = le_u32(b, p1) as int;
                let p2 = p1 + 4;
                if p2 + len > b.len() {
                    PropStep::PropFail(ErrorClass::Eof, p2)
                } else {
                    let s = b.subrange(p2, p2 + len);
                    if valid_utf8(s) {
                        PropStep::PropDone(PropData::String(decode_utf8(s)), p2 + len)
                    } else {
                        PropStep::PropFail(ErrorClass::Utf8, p2)
                    }
                }
            }
        } else if code == TC_BINARY {
            if p1 + 4 > b.len() {
                PropStep::PropFail(ErrorClass::Eof, p1)
            } else {
                let len = le_u32(b, p1) as int;
                let p2 = p1 + 4;
                if p2 + len > b.len() {
                    PropStep::PropFail(ErrorClass::Eof, p2)
                } else {
                    PropStep::PropDone(PropData::Binary(b.subrange(p2, p2 + len)), p2 + len)
                }
            }
        } else if is_array_code(code) {
            if p1 + 4 > b.len() {
                PropStep::PropFail(ErrorClass::Eof, p1)
            } else if p1 + 8 > b.len() {
                PropStep::PropFail(ErrorClass::Eof, p1 + 4)
            } else if p1 + 12 > b.len() {
                PropStep::PropFail(ErrorClass::Eof, p1 + 8)
            } else {
                let n = le_u32(b, p1) as int;
                let enc = le_u32(b, p1 + 4);
                let clen = le_u32(b, p1 + 8) as int;
                spec_read_array(b, p1 + 12, code, n, enc, clen)
            }
        } else {
            PropStep::PropFail(ErrorClass::UnexpectedValue, p1)
        }
    }
}

/// What reading a property list does.
pub enum PropsStep {
    /// The properties in stream order and the position after them.
    PropsDone(Seq<PropData>, int),
    /// Failure, with class and position.
    PropsFail(ErrorClass, int),
}

/// Reads `n` properties in order, starting at `pos`.
pub open spec fn spec_read_props(b: Seq<u8>, pos: int, n: nat) -> PropsStep
    decreases n,
{
    if n == 0 {
        PropsStep::PropsDone(Seq::empty(), pos)
    } else {
        match spec_read_prop(b, pos) {
            PropStep::PropFail(c, p) => PropsStep::PropsFail(c, p),
            PropStep::PropDone(v, p2) => match spec_read_props(b, p2, (n - 1) as nat) {
                PropsStep::PropsFail(c, p) => PropsStep::PropsFail(c, p),
                PropsStep::PropsDone(rest, p3) => PropsStep::PropsDone(seq![v] + rest, p3),
            },
        }
    }
}

/// Prepends already-read properties to the outcome of reading the rest.
pub open spec fn props_prepend(vs: Seq<PropData>, s: PropsStep) -> PropsStep {
    match s {
        PropsStep::PropsFail(c, p) => PropsStep::PropsFail(c, p),
        PropsStep::PropsDone(rest, p) => PropsStep::PropsDone(vs + rest, p),
    }
}

/// Reading a list is reading its head and then the rest.
pub proof fn lemma_props_step(b: Seq<u8>, pos: int, n: nat)
    requires
        n > 0,
    ensures
        spec_read_props(b, pos, n) == (match spec_read_prop(b, pos) {
            PropStep::PropDone(v, p) => props_prepend(
                seq![v],
                spec_read_props(b, p, (n - 1) as nat),
            ),
            PropStep::PropFail(c, p) => PropsStep::PropsFail(c, p),
        }),
{
    match spec_read_prop(b, pos) {
        PropStep::PropDone(v, p) => {
            match spec_read_props(b, p, (n - 1) as nat) {
                PropsStep::PropsFail(c, q) => {},
                PropsStep::PropsDone(rest, q) => {},
            }
        },
        PropStep::PropFail(c, p) => {},
    }
}

/// Prepending nothing changes nothing.
pub proof fn lemma_props_prepend_empty(s: PropsStep)
    ensures
        props_prepend(Seq::empty(), s) == s,
{
    match s {
        PropsStep::PropsFail(c, p) => {},
        PropsStep::PropsDone(rest, p) => {
            assert(Seq::<PropData>::empty() + rest =~= rest);
        },
    }
}

/// Moving one property from the pending head into the finished prefix.
pub proof fn lemma_props_prepend_push(vs: Seq<PropData>, v: PropData, s: PropsStep)
    ensures
        props_prepend(vs, props_prepend(seq![v], s)) == props_prepend(vs.push(v), s),
{
    match s {
        PropsStep::PropsFail(c, p) => {},
        PropsStep::PropsDone(rest, p) => {
            assert(vs + (seq![v] + rest) =~= vs.push(v) + rest);
        },
    }
}

/// The four fields of a node-record header, widened to 64 bits.
pub struct HeaderData {
    /// Absolute position of the end of the node.
    pub end_offset: u64,
    /// Number of properties the node has.
    pub num_properties: u64,
    /// Byte size of the node's property list in the stream.
    pub property_list_len: u64,
    /// Byte size of the node name.
    pub name_len: u8,
}

impl HeaderData {
    /// All four fields zero: the terminator of a node or of the stream.
    pub open spec fn is_null(self) -> bool {
        self.end_offset == 0 && self.num_properties == 0 && self.property_list_len == 0
            && self.name_len == 0
    }
}

/// What reading a node-record header does.
pub enum HeaderStep {
    /// The header and the position after it.
    HeaderDone(HeaderData, int),
    /// End of input hit, at the given field's position.
    HeaderFail(int),
}

/// Reads a node-record header at `pos`: three counted fields whose width
/// the version sets, then one length byte.
pub open spec fn spec_read_header(b: Seq<u8>, pos: int, version: u32) -> HeaderStep {
    let w = field_width(version);
    if pos + w > b.len() {
        HeaderStep::HeaderFail(pos)
    } else if pos + 2 * w > b.len() {
        HeaderStep::HeaderFail(pos + w)
    } else if pos + 3 * w > b.len() {
        HeaderStep::HeaderFail(pos + 2 * w)
    } else if pos + 3 * w + 1 > b.len() {
        HeaderStep::HeaderFail(pos + 3 * w)
    } else {
        HeaderStep::HeaderDone(
            HeaderData {
                end_offset: le_field(b, pos, version),
                num_properties: le_field(b, pos + w, version),
                property_list_len: le_field(b, pos + 2 * w, version),
                name_len: b[pos + 3 * w],
            },
            pos + 3 * w + 1,
        )
    }
}

/// What one pull of the binary parser does.
pub enum NodeStep {
    /// The event, the position after it, and the stack of expected end
    /// offsets after it.
    NodeEvent(EventData, int, Seq<u64>),
    /// Failure, with class and position.
    NodeFail(ErrorClass, int),
}

/// One pull of the binary parser at `pos` with the given stack of
/// expected end offsets (innermost last).
///
/// A node whose end offset is reached closes without a terminator; a null
/// record closes the innermost node, which must end exactly there, or — at
/// the top level — ends the stream; any other header opens a node and its
/// properties follow.
/// The magic bytes as a vector, for the scanner and the emitter.
pub fn fbx_magic_bytes() -> (r: Vec<u8>)
    ensures
        r@ == fbx_magic(),
{
    let mut v: Vec<u8> = Vec::new();
    v.push(0x4b);
    v.push(0x61);
    v.push(0x79);
    v.push(0x64);
    v.push(0x61);
    v.push(0x72);
    v.push(0x61);
    v.push(0x20);
    v.push(0x46);
    v.push(0x42);
    v.push(0x58);
    v.push(0x20);
    v.push(0x42);
    v.push(0x69);
    v.push(0x6e);
    v.push(0x61);
    v.push(0x72);
    v.push(0x79);
    v.push(0x20);
    v.push(0x20);
    proof {
        assert(v@ =~= fbx_magic());
    }
    v
}

pub open spec fn spec_binary_next(b: Seq<u8>, pos: int, version: u32, stack: Seq<u64>) -> NodeStep {
    if stack.len() > 0 && stack.last() == pos as u64 {
        NodeStep::NodeEvent(EventData::EndNode, pos, stack.drop_last())
    } else {
        match spec_read_header(b, pos, version) {
            HeaderStep::HeaderFail(p) => NodeStep::NodeFail(ErrorClass::Eof, p),
            HeaderStep::HeaderDone(h, p1) => {
                if h.is_null() {
                    if stack.len() > 0 {
                        if stack.last() == p1 as u64 {
                            NodeStep::NodeEvent(EventData::EndNode, p1, stack.drop_last())
                        } else {
                            NodeStep::NodeFail(ErrorClass::Data, p1)
                        }
                    } else {
                        NodeStep::NodeEvent(EventData::EndFbx, p1, stack)
                    }
                } else {
                    if p1 + h.name_len > b.len() {
                        NodeStep::NodeFail(ErrorClass::Eof, p1)
                    } else {
                        let nb = b.subrange(p1, p1 + h.name_len);
                        if !valid_utf8(nb) {
                            NodeStep::NodeFail(ErrorClass::Utf8, p1)
                        } else {
                            let p2 = p1 + h.name_len;
                            match spec_read_props(b, p2, h.num_properties as nat) {
                                PropsStep::PropsFail(c, p) => NodeStep::NodeFail(c, p),
                                PropsStep::PropsDone(ps, p3) => NodeStep::NodeEvent(
                                    EventData::StartNode { name: decode_utf8(nb), properties: ps },
                                    p3,
                                    stack.push(h.end_offset),
                                ),
                            }
                        }
                    }
                }
            },
        }
    }
}

/// `first_term` stays within `[pos, b.len()]`.
pub proof fn lemma_first_term_bounds(b: Seq<u8>, pos: int)
    requires
        0 <= pos <= b.len(),
    ensures
        pos <= first_term(b, pos) <= b.len(),
    decreases b.len() - pos,
{
    if pos < b.len() && b[pos] != 0 && b[pos] != 0x0a {
        lemma_first_term_bounds(b, pos + 1);
    }
}

/// Reading the magic consumes at least one byte and stays in bounds.
pub proof fn lemma_magic_advances(b: Seq<u8>, pos: int)
    requires
        0 <= pos <= b.len(),
    ensures
        match spec_magic_next(b, pos) {
            MagicStep::MagicBinary(_, p) => pos < p <= b.len(),
            MagicStep::MagicAscii(_, p) => pos < p <= b.len(),
            MagicStep::MagicFail(_, _) => true,
        },
{
    lemma_first_term_bounds(b, pos);
}

/// Reading one property consumes at least one byte and stays in bounds.
pub proof fn lemma_prop_advance(b: Seq<u8>, pos: int)
    requires
        0 <= pos <= b.len(),
    ensures
        match spec_read_prop(b, pos) {
            PropStep::PropDone(_, p) => pos < p <= b.len(),
            PropStep::PropFail(_, _) => true,
        },
{
    match spec_read_prop(b, pos) {
        PropStep::PropDone(_, _) => {
            let code = b[pos];
            if is_array_code(code) {
                let n = le_u32(b, pos + 1) as int;
                vstd::arithmetic::mul::lemma_mul_nonnegative(n, elem_size(code));
            }
        },
        PropStep::PropFail(_, _) => {},
    }
}

/// Reading a property list only moves forward and stays in bounds.
pub proof fn lemma_props_advance(b: Seq<u8>, pos: int, n: nat)
    requires
        0 <= pos <= b.len(),
    ensures
        match spec_read_props(b, pos, n) {
            PropsStep::PropsDone(ps, p) => pos <= p <= b.len() && ps.len() == n,
            PropsStep::PropsFail(_, _) => true,
        },
    decreases n,
{
    if n > 0 {
        match spec_read_prop(b, pos) {
            PropStep::PropDone(_, p2) => {
                lemma_prop_advance(b, pos);
                lemma_props_advance(b, p2, (n - 1) as nat);
            },
            PropStep::PropFail(_, _) => {},
        }
    }
}

/// Structure of one binary step: how it moves the position and the stack,
/// and which events it can yield.
pub proof fn lemma_binary_next_structure(b: Seq<u8>, pos: int, version: u32, stack: Seq<u64>)
    requires
        0 <= pos <= b.len(),
    ensures
        match spec_binary_next(b, pos, version, stack) {
            NodeStep::NodeEvent(ev, p, st2) => {
                &&& pos <= p <= b.len()
                &&& (p == pos ==> st2.len() < stack.len())
                &&& (ev is EndNode ==> stack.len() > 0 && st2 == stack.drop_last())
                &&& (ev is StartNode ==> st2.len() == stack.len() + 1)
                &&& (ev is EndFbx ==> stack.len() == 0 && st2 == stack)
                &&& !(ev is Comment)
                &&& !(ev is StartFbx)
            },
            NodeStep::NodeFail(_, _) => true,
        },
{
    if !(stack.len() > 0 && stack.last() == pos as u64) {
        match spec_read_header(b, pos, version) {
            HeaderStep::HeaderDone(h, p1) => {
                if !h.is_null() && p1 + h.name_len <= b.len() && valid_utf8(
                    b.subrange(p1, p1 + h.name_len),
                ) {
                    lemma_props_advance(b, p1 + h.name_len, h.num_properties as nat);
                }
            },
            HeaderStep::HeaderFail(_) => {},
        }
    }
}

/// A counted header field as the emitter writes it: 32 bits below version
/// 7500, 64 bits at or above.
pub open spec fn enc_field(v: u64, version: u32) -> Seq<u8> {
    if version < 7500 {
        spec_u32_to_le_bytes(v as u32)
    } else {
        spec_u64_to_le_bytes(v)
    }
}

/// A null record: all three counted fields and the name-length byte zero.
pub open spec fn null_record_bytes(version: u32) -> Seq<u8> {
    enc_field(0, version) + enc_field(0, version) + enc_field(0, version) + seq![0u8]
}

/// The end-offset placeholder written before a node's real end is known.
pub open spec fn placeholder_field(version: u32) -> Seq<u8> {
    if version < 7500 {
        spec_u32_to_le_bytes(0xdead_beef)
    } else {
        spec_u64_to_le_bytes(0xdead_beef_dead_beef)
    }
}

/// The little-endian bytes of the words, in order.
pub open spec fn bytes_of_u32s(v: Seq<u32>) -> Seq<u8>
    decreases v.len(),
{
    if v.len() == 0 {
        Seq::empty()
    } else {
        bytes_of_u32s(v.drop_last()) + spec_u32_to_le_bytes(v.last())
    }
}

/// The little-endian bytes of the words, in order.
pub open spec fn bytes_of_u64s(v: Seq<u64>) -> Seq<u8>
    decreases v.len(),
{
    if v.len() == 0 {
        Seq::empty()
    } else {
        bytes_of_u64s(v.drop_last()) + spec_u64_to_le_bytes(v.last())
    }
}

/// The little-endian two's complement bytes of the values, in order.
pub open spec fn bytes_of_i32s(v: Seq<i32>) -> Seq<u8> {
    bytes_of_u32s(v.map_values(|x: i32| x as u32))
}

/// The little-endian two's complement bytes of the values, in order.
pub open spec fn bytes_of_i64s(v: Seq<i64>) -> Seq<u8> {
    bytes_of_u64s(v.map_values(|x: i64| x as u64))
}

/// Booleans as the bytes `Y` (true) and `T` (false), in order.
pub open spec fn bytes_of_bools(v: Seq<bool>) -> Seq<u8>
    decreases v.len(),
{
    if v.len() == 0 {
        Seq::empty()
    } else {
        bytes_of_bools(v.drop_last()) + seq![
            if v.last() {
                BOOL_TRUE
            } else {
                BOOL_FALSE
            },
        ]
    }
}

/// A compressed array property: type code, 12-byte header with encoding 1
/// and the compressed size, then the zlib block holding `raw`.
pub open spec fn enc_arr_deflated(code: u8, n: nat, raw: Seq<u8>) -> Seq<u8> {
    seq![code] + spec_u32_to_le_bytes(n as u32) + spec_u32_to_le_bytes(1) + spec_u32_to_le_bytes(
        deflate_of(raw).len() as u32,
    ) + deflate_of(raw)
}

/// What the emitter writes for one property.  Numeric arrays are zlib
/// compressed (encoding 1); boolean arrays are stored plain (encoding 0),
/// their count standing in for the stored byte size.
pub open spec fn enc_prop(p: PropData) -> Seq<u8> {
    match p {
        PropData::Bool(b) => seq![
            TC_BOOL,
            if b {
                BOOL_TRUE
            } else {
                BOOL_FALSE
            },
        ],
        PropData::I16(v) => seq![TC_I16] + spec_u16_to_le_bytes(v as u16),
        PropData::I32(v) => seq![TC_I32] + spec_u32_to_le_bytes(v as u32),
        PropData::I64(v) => seq![TC_I64] + spec_u64_to_le_bytes(v as u64),
        PropData::F32(v) => seq![TC_F32] + spec_u32_to_le_bytes(v),
        PropData::F64(v) => seq![TC_F64] + spec_u64_to_le_bytes(v),
        PropData::VecBool(v) => seq![TC_ARR_BOOL] + spec_u32_to_le_bytes(v.len() as u32)
            + spec_u32_to_le_bytes(0) + spec_u32_to_le_bytes(v.len() as u32) + bytes_of_bools(v),
        PropData::VecI32(v) => enc_arr_deflated(TC_ARR_I32, v.len(), bytes_of_i32s(v)),
        PropData::VecI64(v) => enc_arr_deflated(TC_ARR_I64, v.len(), bytes_of_i64s(v)),
        PropData::VecF32(v) => enc_arr_deflated(TC_ARR_F32, v.len(), bytes_of_u32s(v)),
        PropData::VecF64(v) => enc_arr_deflated(TC_ARR_F64, v.len(), bytes_of_u64s(v)),
        PropData::String(s) => seq![TC_STRING] + spec_u32_to_le_bytes(
            encode_utf8(s).len() as u32,
        ) + encode_utf8(s),
        PropData::Binary(b) => seq![TC_BINARY] + spec_u32_to_le_bytes(b.len() as u32) + b,
    }
}

/// Whether the counts of a property fit their 32-bit fields.
pub open spec fn prop_fits(p: PropData) -> bool {
    match p {
        PropData::VecBool(v) => v.len() <= u32::MAX,
        PropData::VecI32(v) => v.len() <= u32::MAX && deflate_of(bytes_of_i32s(v)).len()
            <= u32::MAX,
        PropData::VecI64(v) => v.len() <= u32::MAX && deflate_of(bytes_of_i64s(v)).len()
            <= u32::MAX,
        PropData::VecF32(v) => v.len() <= u32::MAX && deflate_of(bytes_of_u32s(v)).len()
            <= u32::MAX,
        PropData::VecF64(v) => v.len() <= u32::MAX && deflate_of(bytes_of_u64s(v)).len()
            <= u32::MAX,
        PropData::String(s) => encode_utf8(s).len() <= u32::MAX,
        PropData::Binary(b) => b.len() <= u32::MAX,
        _ => true,
    }
}

/// What the emitter writes for a property list, in order.
pub open spec fn enc_props(ps: Seq<PropData>) -> Seq<u8>
    decreases ps.len(),
{
    if ps.len() == 0 {
        Seq::empty()
    } else {
        enc_props(ps.drop_last()) + enc_prop(ps.last())
    }
}

/// Whether every property of the list fits its fields.
pub open spec fn props_fit(ps: Seq<PropData>) -> bool {
    forall|i: int| 0 <= i < ps.len() ==> prop_fits(#[trigger] ps[i])
}

/// The little-endian byte seqs have their fixed widths.
pub proof fn lemma_le_lens()
    ensures
        forall|x: u16| (#[trigger] spec_u16_to_le_bytes(x)).len() == 2,
        forall|x: u32| (#[trigger] spec_u32_to_le_bytes(x)).len() == 4,
        forall|x: u64| (#[trigger] spec_u64_to_le_bytes(x)).len() == 8,
{
    vstd::bytes::lemma_auto_spec_u16_to_from_le_bytes();
    vstd::bytes::lemma_auto_spec_u32_to_from_le_bytes();
    vstd::bytes::lemma_auto_spec_u64_to_from_le_bytes();
}

/// One byte for each boolean.
pub proof fn lemma_bytes_of_bools_len(v: Seq<bool>)
    ensures
        bytes_of_bools(v).len() == v.len(),
    decreases v.len(),
{
    if v.len() > 0 {
        lemma_bytes_of_bools_len(v.drop_last());
    }
}

/// Four bytes for each word.
pub proof fn lemma_bytes_of_u32s_len(v: Seq<u32>)
    ensures
        bytes_of_u32s(v).len() == 4 * v.len(),
    decreases v.len(),
{
    lemma_le_lens();
    if v.len() > 0 {
        lemma_bytes_of_u32s_len(v.drop_last());
    }
}

/// Eight bytes for each word.
pub proof fn lemma_bytes_of_u64s_len(v: Seq<u64>)
    ensures
        bytes_of_u64s(v).len() == 8 * v.len(),
    decreases v.len(),
{
    lemma_le_lens();
    if v.len() > 0 {
        lemma_bytes_of_u64s_len(v.drop_last());
    }
}

/// A prefix of a property list encodes into no more bytes than the whole.
pub proof fn lemma_enc_props_prefix_len(ps: Seq<PropData>, k: int)
    requires
        0 <= k <= ps.len(),
    ensures
        enc_props(ps.take(k)).len() <= enc_props(ps).len(),
    decreases ps.len(),
{
    if k < ps.len() {
        assert(ps.drop_last().take(k) =~= ps.take(k));
        lemma_enc_props_prefix_len(ps.drop_last(), k);
    } else {
        assert(ps.take(k) =~= ps);
    }
}

} // verus!
