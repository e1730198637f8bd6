//! Laws tying the emitter to the reader: what the writer encodes, the
//! reader decodes back unchanged.
//!
//! The laws are layered: one property (`lemma_prop_roundtrip`), a property
//! list (`lemma_props_roundtrip`), a node opening with its end offset
//! patched in (`lemma_start_node_roundtrip`), the terminators
//! (`lemma_null_record_roundtrip`, `lemma_end_at_offset`), and whole
//! streams without nesting, from their first byte
//! (`lemma_flat_file_roundtrip`).  The composition across *nested* nodes —
//! where a parent's end offset is patched only after its children were
//! written — is not stated; tests exercise it on concrete trees.

use vstd::prelude::*;
use vstd::bytes::{spec_u16_to_le_bytes, spec_u32_to_le_bytes, spec_u64_to_le_bytes};
use vstd::utf8::encode_utf8;

use crate::common::PropData;
use crate::compress::{deflate_of, inflate_of};
use crate::reader::parser::{spec_stream, StateView};
use crate::wire::{
    bytes_of_bools, bytes_of_i32s, bytes_of_i64s, bytes_of_u32s, bytes_of_u64s, els_bool, els_f32,
    els_f64, els_i32, els_i64, enc_field, enc_prop, enc_props, field_width, header_size,
    le_field, lemma_bytes_of_bools_len, lemma_bytes_of_u32s_len, lemma_bytes_of_u64s_len,
    lemma_le_lens, null_record_bytes, prop_fits, props_fit, spec_binary_next, spec_read_header,
    spec_read_prop, spec_read_props, EventData, HeaderStep, NodeStep, PropStep, PropsStep,
    BOOL_FALSE, BOOL_TRUE,
};

verus! {

/// Whether inflating what was deflated from the property's element bytes
/// gives those bytes back.  This holds of the real zlib coders; the
/// compressing wrapper returns exactly this fact with its result, so every
/// caller of the emitter has it in hand.
pub open spec fn prop_zlib_ok(p: PropData) -> bool {
    match p {
        PropData::VecI32(v) => inflate_of(deflate_of(bytes_of_i32s(v))) == Some(bytes_of_i32s(v)),
        PropData::VecI64(v) => inflate_of(deflate_of(bytes_of_i64s(v))) == Some(bytes_of_i64s(v)),
        PropData::VecF32(v) => inflate_of(deflate_of(bytes_of_u32s(v))) == Some(bytes_of_u32s(v)),
        PropData::VecF64(v) => inflate_of(deflate_of(bytes_of_u64s(v))) == Some(bytes_of_u64s(v)),
        _ => true,
    }
}

/// Every property of the list deflates invertibly.
pub open spec fn props_zlib_ok(ps: Seq<PropData>) -> bool {
    forall|i: int| 0 <= i < ps.len() ==> prop_zlib_ok(#[trigger] ps[i])
}

proof fn lemma_bytes_of_u32s_index(v: Seq<u32>, k: int)
    requires
        0 <= k < v.len(),
    ensures
        bytes_of_u32s(v).len() == 4 * v.len(),
        bytes_of_u32s(v).subrange(4 * k, 4 * k + 4) == spec_u32_to_le_bytes(v[k]),
    decreases v.len(),
{
    lemma_le_lens();
    lemma_bytes_of_u32s_len(v);
    lemma_bytes_of_u32s_len(v.drop_last());
    if k == v.len() - 1 {
        assert(bytes_of_u32s(v).subrange(4 * k, 4 * k + 4) =~= spec_u32_to_le_bytes(v[k]));
    } else {
        lemma_bytes_of_u32s_index(v.drop_last(), k);
        assert(bytes_of_u32s(v).subrange(4 * k, 4 * k + 4) =~= bytes_of_u32s(
            v.drop_last(),
        ).subrange(4 * k, 4 * k + 4));
    }
}

proof fn lemma_bytes_of_u64s_index(v: Seq<u64>, k: int)
    requires
        0 <= k < v.len(),
    ensures
        bytes_of_u64s(v).len() == 8 * v.len(),
        bytes_of_u64s(v).subrange(8 * k, 8 * k + 8) == spec_u64_to_le_bytes(v[k]),
    decreases v.len(),
{
    lemma_le_lens();
    lemma_bytes_of_u64s_len(v);
    lemma_bytes_of_u64s_len(v.drop_last());
    if k == v.len() - 1 {
        assert(bytes_of_u64s(v).subrange(8 * k, 8 * k + 8) =~= spec_u64_to_le_bytes(v[k]));
    } else {
        lemma_bytes_of_u64s_index(v.drop_last(), k);
        assert(bytes_of_u64s(v).subrange(8 * k, 8 * k + 8) =~= bytes_of_u64s(
            v.drop_last(),
        ).subrange(8 * k, 8 * k + 8));
    }
}

proof fn lemma_bytes_of_bools_index(v: Seq<bool>, k: int)
    requires
        0 <= k < v.len(),
    ensures
        bytes_of_bools(v).len() == v.len(),
        bytes_of_bools(v)[k] == (if v[k] {
            BOOL_TRUE
        } else {
            BOOL_FALSE
        }),
    decreases v.len(),
{
    lemma_bytes_of_bools_len(v);
    lemma_bytes_of_bools_len(v.drop_last());
    if k < v.len() - 1 {
        lemma_bytes_of_bools_index(v.drop_last(), k);
    }
}

/// A slice of a slice of `b` is the matching slice of `e`.
proof fn lemma_field(b: Seq<u8>, pos: int, e: Seq<u8>, lo: int, hi: int)
    requires
        0 <= pos,
        pos + e.len() <= b.len(),
        b.subrange(pos, pos + e.len()) == e,
        0 <= lo <= hi <= e.len(),
    ensures
        b.subrange(pos + lo, pos + hi) == e.subrange(lo, hi),
{
    assert(b.subrange(pos + lo, pos + hi) =~= b.subrange(pos, pos + e.len()).subrange(lo, hi));
}

/// Law: the reader decodes what the emitter wrote for any one property —
/// wherever it stands in a stream — back to that property, consuming
/// exactly its bytes.  For the compressed array kinds this rests on the
/// zlib pair inverting on the element bytes, which the compressing
/// wrapper's contract supplies.
#[verifier::rlimit(100)]
pub proof fn lemma_prop_roundtrip(b: Seq<u8>, pos: int, p: PropData)
    requires
        prop_fits(p),
        prop_zlib_ok(p),
        0 <= pos,
        pos + enc_prop(p).len() <= b.len(),
        b.subrange(pos, pos + enc_prop(p).len()) == enc_prop(p),
    ensures
        spec_read_prop(b, pos) == PropStep::PropDone(p, pos + enc_prop(p).len()),
{
    lemma_le_lens();
    let e = enc_prop(p);
    assert(b[pos] == e[0]) by {
        assert(b.subrange(pos, pos + e.len())[0] == b[pos]);
    }
    match p {
        PropData::Bool(v) => {
            assert(b[pos + 1] == e[1]) by {
                assert(b.subrange(pos, pos + e.len())[1] == b[pos + 1]);
            }
        },
        PropData::I16(v) => {
            lemma_field(b, pos, e, 1, 3);
            assert(e.subrange(1, 3) =~= spec_u16_to_le_bytes(v as u16));
            vstd::bytes::lemma_auto_spec_u16_to_from_le_bytes();
            assert((v as u16) as i16 == v) by (bit_vector);
        },
        PropData::I32(v) => {
            lemma_field(b, pos, e, 1, 5);
            assert(e.subrange(1, 5) =~= spec_u32_to_le_bytes(v as u32));
            vstd::bytes::lemma_auto_spec_u32_to_from_le_bytes();
            assert((v as u32) as i32 == v) by (bit_vector);
        },
        PropData::I64(v) => {
            lemma_field(b, pos, e, 1, 9);
            assert(e.subrange(1, 9) =~= spec_u64_to_le_bytes(v as u64));
            vstd::bytes::lemma_auto_spec_u64_to_from_le_bytes();
            assert((v as u64) as i64 == v) by (bit_vector);
        },
        PropData::F32(v) => {
            lemma_field(b, pos, e, 1, 5);
            assert(e.subrange(1, 5) =~= spec_u32_to_le_bytes(v));
            vstd::bytes::lemma_auto_spec_u32_to_from_le_bytes();
        },
        PropData::F64(v) => {
            lemma_field(b, pos, e, 1, 9);
            assert(e.subrange(1, 9) =~= spec_u64_to_le_bytes(v));
            vstd::bytes::lemma_auto_spec_u64_to_from_le_bytes();
        },
        PropData::String(s) => {
            let sb = encode_utf8(s);
            lemma_field(b, pos, e, 1, 5);
            assert(e.subrange(1, 5) =~= spec_u32_to_le_bytes(sb.len() as u32));
            vstd::bytes::lemma_auto_spec_u32_to_from_le_bytes();
            lemma_field(b, pos, e, 5, 5 + sb.len() as int);
            assert(e.subrange(5, 5 + sb.len() as int) =~= sb);
            vstd::utf8::encode_utf8_valid_utf8(s);
            vstd::utf8::encode_utf8_decode_utf8(s);
        },
        PropData::Binary(v) => {
            lemma_field(b, pos, e, 1, 5);
            assert(e.subrange(1, 5) =~= spec_u32_to_le_bytes(v.len() as u32));
            vstd::bytes::lemma_auto_spec_u32_to_from_le_bytes();
            lemma_field(b, pos, e, 5, 5 + v.len() as int);
            assert(e.subrange(5, 5 + v.len() as int) =~= v);
        },
        PropData::VecBool(v) => {
            lemma_bytes_of_bools_len(v);
            let n = v.len() as int;
            lemma_field(b, pos, e, 1, 5);
            assert(e.subrange(1, 5) =~= spec_u32_to_le_bytes(v.len() as u32));
            lemma_field(b, pos, e, 5, 9);
            assert(e.subrange(5, 9) =~= spec_u32_to_le_bytes(0));
            lemma_field(b, pos, e, 9, 13);
            assert(e.subrange(9, 13) =~= spec_u32_to_le_bytes(v.len() as u32));
            vstd::bytes::lemma_auto_spec_u32_to_from_le_bytes();
            lemma_field(b, pos, e, 13, 13 + n);
            assert(e.subrange(13, 13 + n) =~= bytes_of_bools(v));
            assert forall|k: int| 0 <= k < n implies els_bool(b, pos + 13, n)[k] == v[k] by {
                lemma_bytes_of_bools_index(v, k);
                assert(b.subrange(pos + 13, pos + 13 + n)[k] == b[pos + 13 + k]);
            }
            assert(els_bool(b, pos + 13, n) =~= v);
        },
        PropData::VecI32(v) => {
            lemma_bytes_of_u32s_len(v.map_values(|x: i32| x as u32));
            let raw = bytes_of_i32s(v);
            let z = deflate_of(raw);
            let n = v.len() as int;
            lemma_field(b, pos, e, 1, 5);
            assert(e.subrange(1, 5) =~= spec_u32_to_le_bytes(v.len() as u32));
            lemma_field(b, pos, e, 5, 9);
            assert(e.subrange(5, 9) =~= spec_u32_to_le_bytes(1));
            lemma_field(b, pos, e, 9, 13);
            assert(e.subrange(9, 13) =~= spec_u32_to_le_bytes(z.len() as u32));
            vstd::bytes::lemma_auto_spec_u32_to_from_le_bytes();
            lemma_field(b, pos, e, 13, 13 + z.len() as int);
            assert(e.subrange(13, 13 + z.len() as int) =~= z);
            assert forall|k: int| 0 <= k < n implies els_i32(raw, 0, n)[k] == v[k] by {
                lemma_bytes_of_u32s_index(v.map_values(|x: i32| x as u32), k);
                assert(raw.subrange(4 * k, 4 * k + 4) == spec_u32_to_le_bytes(v[k] as u32));
                let x = v[k];
                assert((x as u32) as i32 == x) by (bit_vector);
            }
            assert(els_i32(raw, 0, n) =~= v);
        },
        PropData::VecI64(v) => {
            lemma_bytes_of_u64s_len(v.map_values(|x: i64| x as u64));
            let raw = bytes_of_i64s(v);
            let z = deflate_of(raw);
            let n = v.len() as int;
            lemma_field(b, pos, e, 1, 5);
            assert(e.subrange(1, 5) =~= spec_u32_to_le_bytes(v.len() as u32));
            lemma_field(b, pos, e, 5, 9);
            assert(e.subrange(5, 9) =~= spec_u32_to_le_bytes(1));
            lemma_field(b, pos, e, 9, 13);
            assert(e.subrange(9, 13) =~= spec_u32_to_le_bytes(z.len() as u32));
            vstd::bytes::lemma_auto_spec_u32_to_from_le_bytes();
            vstd::bytes::lemma_auto_spec_u64_to_from_le_bytes();
            lemma_field(b, pos, e, 13, 13 + z.len() as int);
            assert(e.subrange(13, 13 + z.len() as int) =~= z);
            assert forall|k: int| 0 <= k < n implies els_i64(raw, 0, n)[k] == v[k] by {
                lemma_bytes_of_u64s_index(v.map_values(|x: i64| x as u64), k);
                assert(raw.subrange(8 * k, 8 * k + 8) == spec_u64_to_le_bytes(v[k] as u64));
                let x = v[k];
                assert((x as u64) as i64 == x) by (bit_vector);
            }
            assert(els_i64(raw, 0, n) =~= v);
        },
        PropData::VecF32(v) => {
            lemma_bytes_of_u32s_len(v);
            let raw = bytes_of_u32s(v);
            let z = deflate_of(raw);
            let n = v.len() as int;
            lemma_field(b, pos, e, 1, 5);
            assert(e.subrange(1, 5) =~= spec_u32_to_le_bytes(v.len() as u32));
            lemma_field(b, pos, e, 5, 9);
            assert(e.subrange(5, 9) =~= spec_u32_to_le_bytes(1));
            lemma_field(b, pos, e, 9, 13);
            assert(e.subrange(9, 13) =~= spec_u32_to_le_bytes(z.len() as u32));
            vstd::bytes::lemma_auto_spec_u32_to_from_le_bytes();
            lemma_field(b, pos, e, 13, 13 + z.len() as int);
            assert(e.subrange(13, 13 + z.len() as int) =~= z);
            assert forall|k: int| 0 <= k < n implies els_f32(raw, 0, n)[k] == v[k] by {
                lemma_bytes_of_u32s_index(v, k);
            }
            assert(els_f32(raw, 0, n) =~= v);
        },
        PropData::VecF64(v) => {
            lemma_bytes_of_u64s_len(v);
            let raw = bytes_of_u64s(v);
            let z = deflate_of(raw);
            let n = v.len() as int;
            lemma_field(b, pos, e, 1, 5);
            assert(e.subrange(1, 5) =~= spec_u32_to_le_bytes(v.len() as u32));
            lemma_field(b, pos, e, 5, 9);
            assert(e.subrange(5, 9) =~= spec_u32_to_le_bytes(1));
            lemma_field(b, pos, e, 9, 13);
            assert(e.subrange(9, 13) =~= spec_u32_to_le_bytes(z.len() as u32));
            vstd::bytes::lemma_auto_spec_u32_to_from_le_bytes();
            vstd::bytes::lemma_auto_spec_u64_to_from_le_bytes();
            lemma_field(b, pos, e, 13, 13 + z.len() as int);
            assert(e.subrange(13, 13 + z.len() as int) =~= z);
            assert forall|k: int| 0 <= k < n implies els_f64(raw, 0, n)[k] == v[k] by {
                lemma_bytes_of_u64s_index(v, k);
            }
            assert(els_f64(raw, 0, n) =~= v);
        },
    }
}

/// Law: the reader decodes what the emitter wrote for a whole property
/// list back to that list, in order, consuming exactly its bytes.
pub proof fn lemma_props_roundtrip(b: Seq<u8>, pos: int, ps: Seq<PropData>)
    requires
        props_fit(ps),
        props_zlib_ok(ps),
        0 <= pos,
        pos + enc_props(ps).len() <= b.len(),
        b.subrange(pos, pos + enc_props(ps).len()) == enc_props(ps),
    ensures
        spec_read_props(b, pos, ps.len()) == PropsStep::PropsDone(ps, pos + enc_props(ps).len()),
    decreases ps.len(),
{
    if ps.len() == 0 {
        assert(spec_read_props(b, pos, 0) == PropsStep::PropsDone(
            Seq::<PropData>::empty(),
            pos,
        ));
        assert(ps =~= Seq::<PropData>::empty());
    } else {
        let head = ps.first();
        let rest = ps.drop_first();
        lemma_enc_props_first(ps);
        let eh = enc_prop(head);
        let er = enc_props(rest);
        lemma_field(b, pos, eh + er, 0, eh.len() as int);
        assert((eh + er).subrange(0, eh.len() as int) =~= eh);
        lemma_field(b, pos, eh + er, eh.len() as int, (eh.len() + er.len()) as int);
        assert((eh + er).subrange(eh.len() as int, (eh.len() + er.len()) as int) =~= er);
        assert(b.subrange(pos, pos + eh.len()) == eh);
        assert(b.subrange(pos + eh.len(), pos + eh.len() + er.len()) == er);
        assert(prop_fits(ps[0]) && prop_zlib_ok(ps[0]));
        lemma_prop_roundtrip(b, pos, head);
        assert forall|i: int| 0 <= i < rest.len() implies prop_fits(#[trigger] rest[i])
            && prop_zlib_ok(rest[i]) by {
            assert(rest[i] == ps[i + 1]);
        }
        lemma_props_roundtrip(b, pos + eh.len(), rest);
        crate::wire::lemma_props_step(b, pos, ps.len());
        assert(seq![head] + rest =~= ps);
    }
}

/// A counted header field reads back as the value it was written from.
proof fn lemma_field_roundtrip(b: Seq<u8>, pos: int, version: u32, v: u64)
    requires
        version < 7500 ==> v <= u32::MAX,
        0 <= pos,
        pos + field_width(version) <= b.len(),
        b.subrange(pos, pos + field_width(version)) == enc_field(v, version),
    ensures
        le_field(b, pos, version) == v,
{
    lemma_le_lens();
    if version < 7500 {
        vstd::bytes::lemma_auto_spec_u32_to_from_le_bytes();
    } else {
        vstd::bytes::lemma_auto_spec_u64_to_from_le_bytes();
    }
}

/// The bytes of a node opening whose end-offset field holds `eo`: what
/// stands in the stream once `emit_end_node` has patched the placeholder.
pub open spec fn start_node_bytes_patched(
    version: u32,
    eo: u64,
    name: Seq<char>,
    ps: Seq<PropData>,
) -> Seq<u8> {
    enc_field(eo, version) + enc_field(ps.len() as u64, version) + enc_field(
        enc_props(ps).len() as u64,
        version,
    ) + seq![encode_utf8(name).len() as u8] + encode_utf8(name) + enc_props(ps)
}

/// Law: a written node opening, its end offset patched to `eo`, is read
/// back as the same `StartNode` — same name, same properties in order —
/// with `eo` pushed onto the stack of expected end offsets and the
/// position standing right after the node's own bytes.
#[verifier::rlimit(60)]
pub proof fn lemma_start_node_roundtrip(
    b: Seq<u8>,
    pos: int,
    version: u32,
    eo: u64,
    name: Seq<char>,
    ps: Seq<PropData>,
    stack: Seq<u64>,
)
    requires
        eo != 0,
        encode_utf8(name).len() <= 255,
        props_fit(ps),
        props_zlib_ok(ps),
        ps.len() <= u64::MAX,
        version < 7500 ==> eo <= u32::MAX,
        version < 7500 ==> ps.len() <= u32::MAX,
        version < 7500 ==> enc_props(ps).len() <= u32::MAX,
        0 <= pos,
        pos + start_node_bytes_patched(version, eo, name, ps).len() <= b.len(),
        b.subrange(pos, pos + start_node_bytes_patched(version, eo, name, ps).len())
            == start_node_bytes_patched(version, eo, name, ps),
        !(stack.len() > 0 && stack.last() == pos as u64),
    ensures
        spec_binary_next(b, pos, version, stack) == NodeStep::NodeEvent(
            EventData::StartNode { name, properties: ps },
            pos + start_node_bytes_patched(version, eo, name, ps).len(),
            stack.push(eo),
        ),
{
    lemma_le_lens();
    let e = start_node_bytes_patched(version, eo, name, ps);
    let w = field_width(version);
    let nb = encode_utf8(name);
    lemma_field(b, pos, e, 0, w);
    assert(e.subrange(0, w) =~= enc_field(eo, version));
    lemma_field_roundtrip(b, pos, version, eo);
    lemma_field(b, pos, e, w, 2 * w);
    assert(e.subrange(w, 2 * w) =~= enc_field(ps.len() as u64, version));
    lemma_field_roundtrip(b, pos + w, version, ps.len() as u64);
    lemma_field(b, pos, e, 2 * w, 3 * w);
    assert(e.subrange(2 * w, 3 * w) =~= enc_field(enc_props(ps).len() as u64, version));
    lemma_field_roundtrip(b, pos + 2 * w, version, enc_props(ps).len() as u64);
    assert(b[pos + 3 * w] == nb.len() as u8) by {
        assert(b.subrange(pos, pos + e.len())[3 * w] == b[pos + 3 * w]);
        assert(e[3 * w] == nb.len() as u8);
    }
    let p1 = pos + 3 * w + 1;
    match spec_read_header(b, pos, version) {
        HeaderStep::HeaderDone(h, hp) => {
            assert(h.end_offset == eo);
            assert(!h.is_null());
            assert(hp == p1);
            lemma_field(b, pos, e, 3 * w + 1, 3 * w + 1 + nb.len() as int);
            assert(e.subrange(3 * w + 1, 3 * w + 1 + nb.len() as int) =~= nb);
            vstd::utf8::encode_utf8_valid_utf8(name);
            vstd::utf8::encode_utf8_decode_utf8(name);
            let p2 = p1 + nb.len();
            lemma_field(b, pos, e, 3 * w + 1 + nb.len() as int, e.len() as int);
            assert(e.subrange(3 * w + 1 + nb.len() as int, e.len() as int) =~= enc_props(ps));
            lemma_props_roundtrip(b, p2, ps);
        },
        HeaderStep::HeaderFail(_) => {
            assert(false);
        },
    }
}

/// Law: a null record is read back as the matching terminator: it closes
/// the innermost node when its expected end offset stands exactly after
/// the record, fails when it stands elsewhere, and ends the stream at the
/// top level.
pub proof fn lemma_null_record_roundtrip(b: Seq<u8>, pos: int, version: u32, stack: Seq<u64>)
    requires
        0 <= pos,
        pos + header_size(version) <= b.len(),
        b.subrange(pos, pos + header_size(version)) == crate::wire::null_record_bytes(version),
        !(stack.len() > 0 && stack.last() == pos as u64),
    ensures
        spec_binary_next(b, pos, version, stack) == (if stack.len() == 0 {
            NodeStep::NodeEvent(EventData::EndFbx, pos + header_size(version), stack)
        } else if stack.last() == (pos + header_size(version)) as u64 {
            NodeStep::NodeEvent(
                EventData::EndNode,
                pos + header_size(version),
                stack.drop_last(),
            )
        } else {
            NodeStep::NodeFail(crate::reader::error::ErrorClass::Data, pos + header_size(version))
        }),
{
    lemma_le_lens();
    let hs = header_size(version);
    let w = field_width(version);
    let e = crate::wire::null_record_bytes(version);
    lemma_field(b, pos, e, 0, w);
    assert(e.subrange(0, w) =~= enc_field(0, version));
    lemma_field_roundtrip(b, pos, version, 0);
    lemma_field(b, pos, e, w, 2 * w);
    assert(e.subrange(w, 2 * w) =~= enc_field(0, version));
    lemma_field_roundtrip(b, pos + w, version, 0);
    lemma_field(b, pos, e, 2 * w, 3 * w);
    assert(e.subrange(2 * w, 3 * w) =~= enc_field(0, version));
    lemma_field_roundtrip(b, pos + 2 * w, version, 0);
    assert(b[pos + 3 * w] == 0) by {
        assert(b.subrange(pos, pos + e.len())[3 * w] == b[pos + 3 * w]);
    }
}

/// Law: patching the placeholder end-offset field of a just-written node
/// opening with the node's real end gives exactly the patched form the
/// reading law above speaks of.
pub proof fn lemma_patch_start_node(version: u32, eo: u64, name: Seq<char>, ps: Seq<PropData>)
    ensures
        crate::writer::sink::splice(
            crate::writer::binary::start_node_bytes(version, name, ps),
            0,
            enc_field(eo, version),
        ) == start_node_bytes_patched(version, eo, name, ps),
{
    lemma_le_lens();
    assert(crate::writer::sink::splice(
        crate::writer::binary::start_node_bytes(version, name, ps),
        0,
        enc_field(eo, version),
    ) =~= start_node_bytes_patched(version, eo, name, ps));
}

/// Law: a node whose expected end offset equals the current position
/// closes there, consuming nothing.
pub proof fn lemma_end_at_offset(b: Seq<u8>, pos: int, version: u32, stack: Seq<u64>)
    requires
        stack.len() > 0,
        stack.last() == pos as u64,
    ensures
        spec_binary_next(b, pos, version, stack) == NodeStep::NodeEvent(
            EventData::EndNode,
            pos,
            stack.drop_last(),
        ),
{
}

/// A top-level node of a stream without nesting: its name and properties.
pub struct FlatNode {
    /// Node name.
    pub name: Seq<char>,
    /// Node properties.
    pub props: Seq<PropData>,
}

/// Whether the format can carry the flat node (the conditions of
/// `lemma_start_node_roundtrip`).
pub open spec fn flat_node_ok(version: u32, n: FlatNode) -> bool {
    &&& encode_utf8(n.name).len() <= 255
    &&& props_fit(n.props)
    &&& props_zlib_ok(n.props)
    &&& n.props.len() <= u64::MAX
    &&& (version < 7500 ==> n.props.len() <= u32::MAX)
    &&& (version < 7500 ==> enc_props(n.props).len() <= u32::MAX)
}

/// Byte size of one written flat node: header, name and properties, plus —
/// for a node without properties — its own null-record terminator.
pub open spec fn flat_node_len(version: u32, n: FlatNode) -> int {
    3 * field_width(version) + 1 + encode_utf8(n.name).len() + enc_props(n.props).len() + (
    if n.props.len() == 0 {
        header_size(version)
    } else {
        0int
    })
}

/// The bytes the writer leaves for one flat node starting at `base`, its
/// end offset patched to the position right after it.
pub open spec fn enc_flat_node(version: u32, base: int, n: FlatNode) -> Seq<u8> {
    start_node_bytes_patched(version, (base + flat_node_len(version, n)) as u64, n.name, n.props)
        + (if n.props.len() == 0 {
        null_record_bytes(version)
    } else {
        Seq::<u8>::empty()
    })
}

/// The bytes the writer leaves for a run of flat nodes starting at `base`.
pub open spec fn enc_flat(version: u32, base: int, ns: Seq<FlatNode>) -> Seq<u8>
    decreases ns.len(),
{
    if ns.len() == 0 {
        Seq::empty()
    } else {
        enc_flat_node(version, base, ns.first()) + enc_flat(
            version,
            base + flat_node_len(version, ns.first()),
            ns.drop_first(),
        )
    }
}

/// The events a run of flat nodes denotes: each node opened and closed.
pub open spec fn flat_events(ns: Seq<FlatNode>) -> Seq<EventData>
    decreases ns.len(),
{
    if ns.len() == 0 {
        Seq::empty()
    } else {
        seq![
            EventData::StartNode { name: ns.first().name, properties: ns.first().props },
            EventData::EndNode,
        ] + flat_events(ns.drop_first())
    }
}

/// The patched node opening is as long as its parts.
proof fn lemma_snb_len(version: u32, eo: u64, name: Seq<char>, ps: Seq<PropData>)
    ensures
        start_node_bytes_patched(version, eo, name, ps).len() == 3 * field_width(version) + 1
            + encode_utf8(name).len() + enc_props(ps).len(),
        null_record_bytes(version).len() == header_size(version),
{
    lemma_le_lens();
}

/// Law (writer-then-reader inverse at stream level, for streams without
/// nesting): from a run of written flat nodes followed by the top-level
/// terminator, successive pulls yield exactly each node opened and closed,
/// then `EndFbx`.  Nested streams are covered per record by the laws
/// above; their composition through the end-offset fixups is not stated.
#[verifier::rlimit(100)]
pub proof fn lemma_flat_stream_roundtrip(b: Seq<u8>, pos: int, version: u32, ns: Seq<FlatNode>)
    requires
        forall|i: int| 0 <= i < ns.len() ==> flat_node_ok(version, #[trigger] ns[i]),
        0 <= pos,
        pos + enc_flat(version, pos, ns).len() + header_size(version) <= b.len(),
        pos + enc_flat(version, pos, ns).len() <= u64::MAX,
        version < 7500 ==> pos + enc_flat(version, pos, ns).len() <= u32::MAX,
        b.subrange(pos, pos + enc_flat(version, pos, ns).len()) == enc_flat(version, pos, ns),
        b.subrange(
            pos + enc_flat(version, pos, ns).len(),
            pos + enc_flat(version, pos, ns).len() + header_size(version),
        ) == null_record_bytes(version),
    ensures
        spec_stream(b, pos, StateView::Binary(version, Seq::empty())) == Some(
            flat_events(ns).push(EventData::EndFbx),
        ),
    decreases ns.len(),
{
    lemma_le_lens();
    let hs = header_size(version);
    if ns.len() == 0 {
        assert(enc_flat(version, pos, ns).len() == 0);
        lemma_null_record_roundtrip(b, pos, version, Seq::empty());
        assert(spec_stream(b, pos, StateView::Binary(version, Seq::<u64>::empty())) == Some(
            seq![EventData::EndFbx],
        ));
        assert(flat_events(ns).push(EventData::EndFbx) =~= seq![EventData::EndFbx]);
    } else {
        let h = ns.first();
        let rest = ns.drop_first();
        let flat = enc_flat(version, pos, ns);
        let nlen = flat_node_len(version, h);
        let eo = pos + nlen;
        let snb = start_node_bytes_patched(version, eo as u64, h.name, h.props);
        lemma_snb_len(version, eo as u64, h.name, h.props);
        assert(flat_node_ok(version, ns[0]));
        assert(enc_flat_node(version, pos, h).len() == nlen);
        assert(flat == enc_flat_node(version, pos, h) + enc_flat(version, eo, rest));
        // The head node's bytes, and the bytes after it, as slices of `b`.
        lemma_field(b, pos, flat, 0, snb.len() as int);
        assert(flat.subrange(0, snb.len() as int) =~= snb);
        assert(b.subrange(pos, pos + snb.len()) == snb);
        // The head opens: same name, same properties, its end pushed.
        lemma_start_node_roundtrip(b, pos, version, eo as u64, h.name, h.props, Seq::empty());
        let p1 = pos + snb.len();
        let opened = EventData::StartNode { name: h.name, properties: h.props };
        assert(spec_binary_next(b, pos, version, Seq::<u64>::empty()) == NodeStep::NodeEvent(
            opened,
            p1,
            Seq::<u64>::empty().push(eo as u64),
        ));
        // The head closes: at its end offset directly, or through its own
        // null record when it has no properties.
        let stack1 = Seq::<u64>::empty().push(eo as u64);
        if h.props.len() == 0 {
            assert(nlen == snb.len() + hs);
            lemma_field(b, pos, flat, snb.len() as int, nlen);
            assert(flat.subrange(snb.len() as int, nlen) =~= null_record_bytes(version));
            assert(stack1.last() != p1 as u64);
            lemma_null_record_roundtrip(b, p1, version, stack1);
            assert(spec_binary_next(b, p1, version, stack1) == NodeStep::NodeEvent(
                EventData::EndNode,
                eo,
                stack1.drop_last(),
            ));
        } else {
            assert(nlen == snb.len());
            lemma_end_at_offset(b, p1, version, stack1);
        }
        assert(stack1.drop_last() =~= Seq::<u64>::empty());
        // The rest of the run, by induction from the head's end.
        assert forall|i: int| 0 <= i < rest.len() implies flat_node_ok(
            version,
            #[trigger] rest[i],
        ) by {
            assert(rest[i] == ns[i + 1]);
        }
        lemma_field(b, pos, flat, nlen, flat.len() as int);
        assert(flat.subrange(nlen, flat.len() as int) =~= enc_flat(version, eo, rest));
        assert(b.subrange(eo, eo + enc_flat(version, eo, rest).len()) == enc_flat(
            version,
            eo,
            rest,
        ));
        assert(b.subrange(
            eo + enc_flat(version, eo, rest).len(),
            eo + enc_flat(version, eo, rest).len() + hs,
        ) == null_record_bytes(version));
        lemma_flat_stream_roundtrip(b, eo, version, rest);
        // Assemble: the head's two events, then the rest's stream.
        assert(spec_stream(b, eo, StateView::Binary(version, Seq::<u64>::empty())) == Some(
            flat_events(rest).push(EventData::EndFbx),
        ));
        assert(spec_stream(b, p1, StateView::Binary(version, stack1)) == Some(
            seq![EventData::EndNode] + flat_events(rest).push(EventData::EndFbx),
        ));
        assert(spec_stream(b, pos, StateView::Binary(version, Seq::<u64>::empty())) == Some(
            seq![opened] + (seq![EventData::EndNode] + flat_events(rest).push(EventData::EndFbx)),
        ));
        assert(seq![opened] + (seq![EventData::EndNode] + flat_events(rest).push(
            EventData::EndFbx,
        )) =~= flat_events(ns).push(EventData::EndFbx));
    }
}

/// The magic line holds neither NUL nor line feed, so the scan stops at
/// the NUL that follows it.
proof fn lemma_magic_has_no_terminator(j: int)
    requires
        0 <= j < 20,
    ensures
        crate::wire::fbx_magic()[j] != 0,
        crate::wire::fbx_magic()[j] != 0x0a,
{
    let m = crate::wire::fbx_magic();
    assert(m[0] == 0x4b && m[1] == 0x61 && m[2] == 0x79 && m[3] == 0x64 && m[4] == 0x61 && m[5]
        == 0x72 && m[6] == 0x61 && m[7] == 0x20 && m[8] == 0x46 && m[9] == 0x42 && m[10] == 0x58
        && m[11] == 0x20 && m[12] == 0x42 && m[13] == 0x69 && m[14] == 0x6e && m[15] == 0x61 && m[16]
        == 0x72 && m[17] == 0x79 && m[18] == 0x20 && m[19] == 0x20);
}

/// Law (whole written file, for streams without nesting): a stream header
/// followed by a run of written flat nodes, the top-level terminator and
/// anything after (the footer is never parsed) reads back, from its first
/// byte, as exactly `StartFbx`, each node opened and closed, and `EndFbx`.
pub proof fn lemma_flat_file_roundtrip(b: Seq<u8>, version: u32, ns: Seq<FlatNode>)
    requires
        forall|i: int| 0 <= i < ns.len() ==> flat_node_ok(version, #[trigger] ns[i]),
        27 + enc_flat(version, 27, ns).len() + header_size(version) <= b.len(),
        27 + enc_flat(version, 27, ns).len() <= u64::MAX,
        version < 7500 ==> 27 + enc_flat(version, 27, ns).len() <= u32::MAX,
        b.subrange(0, 27) == crate::writer::binary::start_fbx_bytes(version),
        b.subrange(27, 27 + enc_flat(version, 27, ns).len() as int) == enc_flat(version, 27, ns),
        b.subrange(
            27 + enc_flat(version, 27, ns).len() as int,
            27 + enc_flat(version, 27, ns).len() + header_size(version),
        ) == null_record_bytes(version),
    ensures
        spec_stream(b, 0, StateView::Magic) == Some(
            seq![
                EventData::StartFbx(crate::common::FbxFormatType::Binary(version)),
            ] + flat_events(ns).push(EventData::EndFbx),
        ),
{
    lemma_le_lens();
    let hdr = crate::writer::binary::start_fbx_bytes(version);
    assert(hdr.len() == 27);
    assert forall|j: int| 0 <= j < 20 implies b[j] != 0 && b[j] != 0x0a by {
        assert(b.subrange(0, 27)[j] == b[j]);
        assert(hdr[j] == crate::wire::fbx_magic()[j]);
        lemma_magic_has_no_terminator(j);
    }
    assert(b[20] == 0) by {
        assert(b.subrange(0, 27)[20] == b[20]);
        assert(hdr[20] == 0);
    }
    crate::reader::parser::lemma_first_term_from(b, 0, 20);
    assert(b.subrange(0, 20) =~= crate::wire::fbx_magic()) by {
        assert forall|j: int| 0 <= j < 20 implies b.subrange(0, 20)[j]
            == crate::wire::fbx_magic()[j] by {
            assert(b.subrange(0, 27)[j] == b[j]);
            assert(hdr[j] == crate::wire::fbx_magic()[j]);
        }
    }
    lemma_field(b, 0, hdr, 23, 27);
    assert(hdr.subrange(23, 27) =~= spec_u32_to_le_bytes(version));
    vstd::bytes::lemma_auto_spec_u32_to_from_le_bytes();
    assert(crate::wire::spec_magic_next(b, 0) == crate::wire::MagicStep::MagicBinary(version, 27));
    lemma_flat_stream_roundtrip(b, 27, version, ns);
    assert(spec_stream(b, 0, StateView::Magic) == Some(
        seq![EventData::StartFbx(crate::common::FbxFormatType::Binary(version))] + flat_events(
            ns,
        ).push(EventData::EndFbx),
    ));
}

/// A property list's encoding is its head's followed by the rest's.
proof fn lemma_enc_props_first(ps: Seq<PropData>)
    requires
        ps.len() > 0,
    ensures
        enc_props(ps) == enc_prop(ps.first()) + enc_props(ps.drop_first()),
    decreases ps.len(),
{
    if ps.len() == 1 {
        assert(ps.drop_last() =~= Seq::<PropData>::empty());
        assert(ps.drop_first() =~= Seq::<PropData>::empty());
        assert(ps.first() == ps.last());
        assert(enc_props(ps) =~= enc_prop(ps.first()) + enc_props(ps.drop_first()));
    } else {
        lemma_enc_props_first(ps.drop_last());
        assert(ps.drop_last().first() == ps.first());
        assert(ps.drop_last().drop_first() =~= ps.drop_first().drop_last());
        assert(ps.drop_first().last() == ps.last());
        assert(enc_props(ps) == enc_props(ps.drop_last()) + enc_prop(ps.last()));
        assert(enc_props(ps.drop_first()) == enc_props(ps.drop_first().drop_last()) + enc_prop(
            ps.drop_first().last(),
        ));
        assert(enc_props(ps) =~= enc_prop(ps.first()) + enc_props(ps.drop_first()));
    }
}

} // verus!
