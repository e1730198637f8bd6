//! The ASCII FBX emitter: indented `name: properties { children }` text.
//!
//! Output is specified byte for byte.  Floating-point properties have no
//! textual form here (their shortest decimal rendering is a floating-point
//! computation this crate does not carry out), and writing one reports
//! `Unimplemented`.

use vstd::prelude::*;
use vstd::utf8::encode_utf8;

use crate::b64::{b64_encode, b64_encode_of};
use crate::common::{bprops_view, PropData, Property};
use crate::fmtnum::{dec_i64, dec_u64, push_dec_i64, push_dec_u64};
use crate::writer::error::{Error, Result};
use crate::writer::sink::{lemma_splice_append, MemSink};

verus! {

/// `"; FBX "`.
pub open spec fn lit_header_prefix() -> Seq<u8> {
    seq![0x3bu8, 0x20, 0x46, 0x42, 0x58, 0x20]
}

/// `" project file\n"`.
pub open spec fn lit_header_suffix() -> Seq<u8> {
    seq![0x20u8, 0x70, 0x72, 0x6f, 0x6a, 0x65, 0x63, 0x74, 0x20, 0x66, 0x69, 0x6c, 0x65, 0x0a]
}

/// The header line: `"; FBX M.m.r project file\n"` for version `M . m . r`
/// (7400 prints as 7.4.0).
pub open spec fn ascii_header_bytes(ver: u32) -> Seq<u8> {
    lit_header_prefix() + dec_u64((ver / 1000) as nat) + seq![0x2eu8] + dec_u64(
        (((ver % 1000) / 100)) as nat,
    ) + seq![0x2eu8] + dec_u64((ver % 100) as nat) + lit_header_suffix()
}

/// One tab per open node.
pub open spec fn indent_bytes(depth: int) -> Seq<u8> {
    Seq::new(depth as nat, |i: int| 0x09u8)
}

/// A string byte in its escaped form: `"` as `&quot;`, line feed as
/// `&lf;`, carriage return as `&cr;`, all else as itself.
pub open spec fn escape_byte(b: u8) -> Seq<u8> {
    if b == 0x22 {
        seq![0x26u8, 0x71, 0x75, 0x6f, 0x74, 0x3b]
    } else if b == 0x0a {
        seq![0x26u8, 0x6c, 0x66, 0x3b]
    } else if b == 0x0d {
        seq![0x26u8, 0x63, 0x72, 0x3b]
    } else {
        seq![b]
    }
}

/// The bytes, each in its escaped form.
pub open spec fn escape_bytes(bs: Seq<u8>) -> Seq<u8>
    decreases bs.len(),
{
    if bs.len() == 0 {
        Seq::empty()
    } else {
        escape_bytes(bs.drop_last()) + escape_byte(bs.last())
    }
}

/// `Y` for true, `T` for false.
pub open spec fn bool_text(b: bool) -> Seq<u8> {
    if b {
        seq![0x59u8]
    } else {
        seq![0x54u8]
    }
}

/// The values' decimal texts, joined with commas.
pub open spec fn list_i32(v: Seq<i32>) -> Seq<u8>
    decreases v.len(),
{
    if v.len() == 0 {
        Seq::empty()
    } else if v.len() == 1 {
        dec_i64(v[0] as int)
    } else {
        list_i32(v.drop_last()) + seq![0x2cu8] + dec_i64(v.last() as int)
    }
}

/// The values' decimal texts, joined with commas.
pub open spec fn list_i64(v: Seq<i64>) -> Seq<u8>
    decreases v.len(),
{
    if v.len() == 0 {
        Seq::empty()
    } else if v.len() == 1 {
        dec_i64(v[0] as int)
    } else {
        list_i64(v.drop_last()) + seq![0x2cu8] + dec_i64(v.last() as int)
    }
}

/// The booleans as `Y`/`T`, joined with commas.
pub open spec fn list_bool(v: Seq<bool>) -> Seq<u8>
    decreases v.len(),
{
    if v.len() == 0 {
        Seq::empty()
    } else if v.len() == 1 {
        bool_text(v[0])
    } else {
        list_bool(v.drop_last()) + seq![0x2cu8] + bool_text(v.last())
    }
}

/// An array form: `*N {\n<indent>a: v0,v1,...\n<dedent>}`.
pub open spec fn array_text(n: nat, body: Seq<u8>, depth: int) -> Seq<u8> {
    seq![0x2au8] + dec_u64(n) + seq![0x20u8, 0x7b, 0x0a] + indent_bytes(depth) + seq![
        0x61u8,
        0x3a,
        0x20,
    ] + body + seq![0x0au8] + indent_bytes(depth - 1) + seq![0x7du8]
}

/// Whether the property has a textual form here: every kind but the
/// floating-point ones.
pub open spec fn ascii_prop_ok(p: PropData) -> bool {
    !(p is F32 || p is F64 || p is VecF32 || p is VecF64)
}

/// The text of one property (empty for the unsupported floating-point
/// kinds; see `ascii_prop_ok`).
pub open spec fn prop_text(p: PropData, depth: int) -> Seq<u8> {
    match p {
        PropData::Bool(b) => bool_text(b),
        PropData::I16(v) => dec_i64(v as int),
        PropData::I32(v) => dec_i64(v as int),
        PropData::I64(v) => dec_i64(v as int),
        PropData::VecBool(v) => array_text(v.len(), list_bool(v), depth),
        PropData::VecI32(v) => array_text(v.len(), list_i32(v), depth),
        PropData::VecI64(v) => array_text(v.len(), list_i64(v), depth),
        PropData::String(s) => seq![0x22u8] + escape_bytes(encode_utf8(s)) + seq![0x22u8],
        PropData::Binary(b) => seq![0x22u8] + encode_utf8(b64_encode_of(b)) + seq![0x22u8],
        _ => Seq::empty(),
    }
}

/// The properties' texts, joined with `", "`.
pub open spec fn props_text(ps: Seq<PropData>, depth: int) -> Seq<u8>
    decreases ps.len(),
{
    if ps.len() == 0 {
        Seq::empty()
    } else if ps.len() == 1 {
        prop_text(ps[0], depth)
    } else {
        props_text(ps.drop_last(), depth) + seq![0x2cu8, 0x20] + prop_text(ps.last(), depth)
    }
}

/// What opening a node appends: the parent's opening brace if this is its
/// first child, the indent, then `name: ` and the properties.
pub open spec fn ascii_start_node_bytes(
    st: Seq<(bool, bool)>,
    name: Seq<char>,
    ps: Seq<PropData>,
) -> Seq<u8> {
    (if st.len() > 0 && !st.last().1 {
        seq![0x20u8, 0x7b, 0x0a]
    } else {
        Seq::empty()
    }) + indent_bytes(st.len() as int) + encode_utf8(name) + seq![0x3au8, 0x20] + props_text(
        ps,
        st.len() as int + 1,
    )
}

/// What closing a node appends: a brace pair for an empty node, a closing
/// brace for one with children, a bare newline for one with only
/// properties.
pub open spec fn ascii_end_node_bytes(top: (bool, bool), depth_after: int) -> Seq<u8> {
    if !top.0 || top.1 {
        (if !top.0 && !top.1 {
            seq![0x20u8, 0x7b, 0x0a]
        } else {
            Seq::empty()
        }) + indent_bytes(depth_after) + seq![0x7du8, 0x0a]
    } else {
        seq![0x0au8]
    }
}

/// The position of the first line feed at or after `i` (`bs.len()` when
/// there is none).
pub open spec fn find_lf(bs: Seq<u8>, i: int) -> int
    decreases bs.len() - i,
{
    if i < 0 || i >= bs.len() {
        bs.len() as int
    } else if bs[i] == 0x0a {
        i
    } else {
        find_lf(bs, i + 1)
    }
}

/// `find_lf` stays within `[i, bs.len()]`.
pub proof fn lemma_find_lf_bounds(bs: Seq<u8>, i: int)
    requires
        0 <= i <= bs.len(),
    ensures
        i <= find_lf(bs, i) <= bs.len(),
    decreases bs.len() - i,
{
    if i < bs.len() && bs[i] != 0x0a {
        lemma_find_lf_bounds(bs, i + 1);
    }
}

/// What a comment appends, from offset `i` on: each line indented and
/// closed with a line feed.
pub open spec fn comment_text(depth: int, bs: Seq<u8>, i: int) -> Seq<u8>
    decreases bs.len() + 1 - i,
    via comment_text_decreases
{
    if i < 0 || i >= bs.len() {
        Seq::empty()
    } else {
        let j = find_lf(bs, i);
        indent_bytes(depth) + bs.subrange(i, j) + seq![0x0au8] + comment_text(depth, bs, j + 1)
    }
}

#[via_fn]
proof fn comment_text_decreases(depth: int, bs: Seq<u8>, i: int) {
    if 0 <= i && i < bs.len() {
        lemma_find_lf_bounds(bs, i);
    }
}

proof fn lemma_find_lf_from(bs: Seq<u8>, i: int, t: int)
    requires
        0 <= i <= t <= bs.len(),
        forall|j: int| i <= j < t ==> bs[j] != 0x0a,
        t == bs.len() || bs[t] == 0x0a,
    ensures
        find_lf(bs, i) == t,
    decreases t - i,
{
    if i < t {
        lemma_find_lf_from(bs, i + 1, t);
    }
}

/// Appends one tab per level.
fn indent(out: &mut Vec<u8>, depth: usize)
    ensures
        final(out)@ == old(out)@ + indent_bytes(depth as int),
{
    let mut k: usize = 0;
    while k < depth
        invariant
            k <= depth,
            out@ == old(out)@ + indent_bytes(k as int),
        decreases depth - k,
    {
        out.push(0x09);
        k = k + 1;
        proof {
            assert(out@ =~= old(out)@ + indent_bytes(k as int));
        }
    }
}

/// Appends the bytes in escaped form.
fn push_escaped(out: &mut Vec<u8>, bs: &[u8])
    ensures
        final(out)@ == old(out)@ + escape_bytes(bs@),
{
    let n = bs.len();
    let mut k: usize = 0;
    proof {
        assert(escape_bytes(bs@.take(0)) =~= Seq::<u8>::empty());
        assert(out@ =~= out@ + escape_bytes(bs@.take(0)));
    }
    while k < n
        invariant
            k <= n == bs@.len(),
            out@ == old(out)@ + escape_bytes(bs@.take(k as int)),
        decreases n - k,
    {
        let b = bs[k];
        if b == 0x22 {
            out.push(0x26);
            out.push(0x71);
            out.push(0x75);
            out.push(0x6f);
            out.push(0x74);
            out.push(0x3b);
        } else if b == 0x0a {
            out.push(0x26);
            out.push(0x6c);
            out.push(0x66);
            out.push(0x3b);
        } else if b == 0x0d {
            out.push(0x26);
            out.push(0x63);
            out.push(0x72);
            out.push(0x3b);
        } else {
            out.push(b);
        }
        k = k + 1;
        proof {
            assert(bs@.take(k as int).drop_last() =~= bs@.take(k - 1));
            assert(out@ =~= old(out)@ + escape_bytes(bs@.take(k as int)));
        }
    }
    proof {
        assert(bs@.take(n as int) =~= bs@);
    }
}

/// Appends the comma-joined decimal texts.
fn push_list_i32(out: &mut Vec<u8>, v: &[i32])
    ensures
        final(out)@ == old(out)@ + list_i32(v@),
{
    let n = v.len();
    let mut k: usize = 0;
    proof {
        assert(out@ =~= out@ + list_i32(v@.take(0)));
    }
    while k < n
        invariant
            k <= n == v@.len(),
            out@ == old(out)@ + list_i32(v@.take(k as int)),
        decreases n - k,
    {
        if k > 0 {
            out.push(0x2c);
        }
        push_dec_i64(out, v[k] as i64);
        k = k + 1;
        proof {
            assert(v@.take(k as int).drop_last() =~= v@.take(k - 1));
            assert(out@ =~= old(out)@ + list_i32(v@.take(k as int)));
        }
    }
    proof {
        assert(v@.take(n as int) =~= v@);
    }
}

/// Appends the comma-joined decimal texts.
fn push_list_i64(out: &mut Vec<u8>, v: &[i64])
    ensures
        final(out)@ == old(out)@ + list_i64(v@),
{
    let n = v.len();
    let mut k: usize = 0;
    proof {
        assert(out@ =~= out@ + list_i64(v@.take(0)));
    }
    while k < n
        invariant
            k <= n == v@.len(),
            out@ == old(out)@ + list_i64(v@.take(k as int)),
        decreases n - k,
    {
        if k > 0 {
            out.push(0x2c);
        }
        push_dec_i64(out, v[k]);
        k = k + 1;
        proof {
            assert(v@.take(k as int).drop_last() =~= v@.take(k - 1));
            assert(out@ =~= old(out)@ + list_i64(v@.take(k as int)));
        }
    }
    proof {
        assert(v@.take(n as int) =~= v@);
    }
}

/// Appends the comma-joined `Y`/`T` texts.
fn push_list_bool(out: &mut Vec<u8>, v: &[bool])
    ensures
        final(out)@ == old(out)@ + list_bool(v@),
{
    let n = v.len();
    let mut k: usize = 0;
    proof {
        assert(out@ =~= out@ + list_bool(v@.take(0)));
    }
    while k < n
        invariant
            k <= n == v@.len(),
            out@ == old(out)@ + list_bool(v@.take(k as int)),
        decreases n - k,
    {
        if k > 0 {
            out.push(0x2c);
        }
        out.push(
            if v[k] {
                0x59
            } else {
                0x54
            },
        );
        k = k + 1;
        proof {
            assert(v@.take(k as int).drop_last() =~= v@.take(k - 1));
            assert(out@ =~= old(out)@ + list_bool(v@.take(k as int)));
        }
    }
    proof {
        assert(v@.take(n as int) =~= v@);
    }
}

/// Appends `*N {\n<indent>a: ` around a prepared body, then the body, the
/// newline, the dedent and the brace.
fn push_array(out: &mut Vec<u8>, n: usize, body: Vec<u8>, depth: usize)
    requires
        depth >= 1,
    ensures
        final(out)@ == old(out)@ + array_text(n as nat, body@, depth as int),
{
    out.push(0x2a);
    push_dec_u64(out, n as u64);
    out.push(0x20);
    out.push(0x7b);
    out.push(0x0a);
    indent(out, depth);
    out.push(0x61);
    out.push(0x3a);
    out.push(0x20);
    let mut b = body;
    out.append(&mut b);
    out.push(0x0a);
    indent(out, depth - 1);
    out.push(0x7d);
    proof {
        assert(out@ =~= old(out)@ + array_text(n as nat, body@, depth as int));
    }
}

/// Appends the text of one property; the floating-point kinds have none.
fn print_property(out: &mut Vec<u8>, prop: &Property<'_>, depth: usize) -> (r: Result<()>)
    requires
        depth >= 1,
    ensures
        if ascii_prop_ok(prop@) {
            r is Ok && final(out)@ == old(out)@ + prop_text(prop@, depth as int)
        } else {
            r matches Err(e) && e is Unimplemented && final(out)@ == old(out)@
        },
{
    match prop {
        Property::Bool(v) => {
            out.push(
                if *v {
                    0x59
                } else {
                    0x54
                },
            );
            proof {
                assert(out@ =~= old(out)@ + prop_text(prop@, depth as int));
            }
            Ok(())
        },
        Property::I16(v) => {
            push_dec_i64(out, *v as i64);
            Ok(())
        },
        Property::I32(v) => {
            push_dec_i64(out, *v as i64);
            Ok(())
        },
        Property::I64(v) => {
            push_dec_i64(out, *v);
            Ok(())
        },
        Property::VecBool(v) => {
            let mut body: Vec<u8> = Vec::new();
            push_list_bool(&mut body, v);
            push_array(out, v.len(), body, depth);
            Ok(())
        },
        Property::VecI32(v) => {
            let mut body: Vec<u8> = Vec::new();
            push_list_i32(&mut body, v);
            push_array(out, v.len(), body, depth);
            Ok(())
        },
        Property::VecI64(v) => {
            let mut body: Vec<u8> = Vec::new();
            push_list_i64(&mut body, v);
            push_array(out, v.len(), body, depth);
            Ok(())
        },
        Property::String(s) => {
            out.push(0x22);
            push_escaped(out, s.as_bytes());
            out.push(0x22);
            proof {
                assert(out@ =~= old(out)@ + prop_text(prop@, depth as int));
            }
            Ok(())
        },
        Property::Binary(b) => {
            out.push(0x22);
            let text = b64_encode(b);
            let mut tb = text.as_bytes_vec();
            out.append(&mut tb);
            out.push(0x22);
            proof {
                assert(out@ =~= old(out)@ + prop_text(prop@, depth as int));
            }
            Ok(())
        },
        _ => Err(
            Error::Unimplemented(
                "Textual form of floating-point properties is not supported".to_owned(),
            ),
        ),
    }
}

/// A writer for ASCII FBX.
#[derive(Debug, Clone)]
pub struct AsciiEmitter {
    /// For each open node: whether it has properties, and whether a child
    /// was seen — these drive brace and newline placement.
    pub prop_child_existence: Vec<(bool, bool)>,
}

impl AsciiEmitter {
    /// Constructs an ASCII FBX writer.
    pub fn new() -> (r: Self)
        ensures
            r.prop_child_existence@ == Seq::<(bool, bool)>::empty(),
    {
        AsciiEmitter { prop_child_existence: Vec::new() }
    }

    /// Writes the header line.  Only 7000-series versions are supported.
    pub fn emit_start_fbx(&mut self, sink: &mut MemSink, ver: u32) -> (r: Result<()>)
        requires
            old(sink).wf(),
            old(sink).pos == old(sink).data@.len(),
        ensures
            *final(self) == *old(self),
            final(sink).wf(),
            final(sink).pos == final(sink).data@.len(),
            if 7000 <= ver < 8000 && old(sink).data@.len() + ascii_header_bytes(ver).len()
                <= usize::MAX {
                r is Ok && final(sink).data@ == old(sink).data@ + ascii_header_bytes(ver)
            } else if !(7000 <= ver < 8000) {
                r matches Err(e) && e == Error::UnsupportedFbxVersion(ver) && *final(sink) == *old(
                    sink,
                )
            } else {
                r matches Err(e) && e is DataTooLarge && *final(sink) == *old(sink)
            },
    {
        if ver < 7000 || ver >= 8000 {
            return Err(Error::UnsupportedFbxVersion(ver));
        }
        let mut out: Vec<u8> = Vec::new();
        out.push(0x3b);
        out.push(0x20);
        out.push(0x46);
        out.push(0x42);
        out.push(0x58);
        out.push(0x20);
        proof {
            assert(out@ =~= lit_header_prefix());
        }
        push_dec_u64(&mut out, (ver / 1000) as u64);
        out.push(0x2e);
        push_dec_u64(&mut out, ((ver % 1000) / 100) as u64);
        out.push(0x2e);
        push_dec_u64(&mut out, (ver % 100) as u64);
        out.push(0x20);
        out.push(0x70);
        out.push(0x72);
        out.push(0x6f);
        out.push(0x6a);
        out.push(0x65);
        out.push(0x63);
        out.push(0x74);
        out.push(0x20);
        out.push(0x66);
        out.push(0x69);
        out.push(0x6c);
        out.push(0x65);
        out.push(0x0a);
        proof {
            assert(out@ =~= ascii_header_bytes(ver));
        }
        if usize::MAX - sink.tell() < out.len() {
            return Err(Error::DataTooLarge("No room left in the sink".to_owned()));
        }
        let ghost base = sink.data@;
        sink.write_bytes(out.as_slice());
        proof {
            lemma_splice_append(base, out@);
        }
        Ok(())
    }

    /// Ends the stream; the textual form has no footer.
    pub fn emit_end_fbx(&mut self, _sink: &mut MemSink) -> (r: Result<()>)
        ensures
            *final(self) == *old(self),
            *final(_sink) == *old(_sink),
            r is Ok,
    {
        Ok(())
    }

    /// Opens a node: the parent's opening brace if this is its first
    /// child, the indent, `name: `, and the properties.
    pub fn emit_start_node(
        &mut self,
        sink: &mut MemSink,
        name: &str,
        properties: &[Property<'_>],
    ) -> (r: Result<()>)
        requires
            old(sink).wf(),
            old(sink).pos == old(sink).data@.len(),
        ensures
            final(sink).wf(),
            final(sink).pos == final(sink).data@.len(),
            ({
                let st = old(self).prop_child_existence@;
                let ps = bprops_view(properties@);
                let written = ascii_start_node_bytes(st, name@, ps);
                if (forall|i: int| 0 <= i < ps.len() ==> ascii_prop_ok(#[trigger] ps[i])) && old(
                    sink,
                ).data@.len() + written.len() <= usize::MAX {
                    &&& r is Ok
                    &&& final(sink).data@ == old(sink).data@ + written
                    &&& final(self).prop_child_existence@ == (if st.len() > 0 {
                        st.update(st.len() - 1, (st.last().0, true))
                    } else {
                        st
                    }).push((ps.len() > 0, false))
                } else {
                    r matches Err(e) && (e is Unimplemented || e is DataTooLarge)
                }
            }),
    {
        let ghost st = self.prop_child_existence@;
        let ghost ps = bprops_view(properties@);
        let depth = self.prop_child_existence.len();
        let mut out: Vec<u8> = Vec::new();
        if depth > 0 {
            let top = self.prop_child_existence[depth - 1];
            if !top.1 {
                out.push(0x20);
                out.push(0x7b);
                out.push(0x0a);
            }
            self.prop_child_existence.set(depth - 1, (top.0, true));
        }
        proof {
            assert(self.prop_child_existence@ =~= (if st.len() > 0 {
                st.update(st.len() - 1, (st.last().0, true))
            } else {
                st
            }));
        }
        self.prop_child_existence.push((properties.len() > 0, false));
        let depth_plus = self.prop_child_existence.len();
        proof {
            assert(depth_plus == depth + 1);
        }
        indent(&mut out, depth);
        let mut nb = name.as_bytes_vec();
        out.append(&mut nb);
        out.push(0x3a);
        out.push(0x20);
        let ghost head = out@;
        proof {
            assert(out@ =~= head + props_text(ps.take(0), depth as int + 1));
        }
        let n = properties.len();
        let mut k: usize = 0;
        while k < n
            invariant
                k <= n == properties@.len(),
                ps == bprops_view(properties@),
                out@ == head + props_text(ps.take(k as int), depth as int + 1),
                forall|i: int| 0 <= i < k ==> ascii_prop_ok(#[trigger] ps[i]),
                depth_plus == depth + 1,
                sink.wf(),
                sink.pos == sink.data@.len(),
                sink.data@ == old(sink).data@,
            decreases n - k,
        {
            if k > 0 {
                out.push(0x2c);
                out.push(0x20);
            }
            match print_property(&mut out, &properties[k], depth_plus) {
                Ok(()) => {},
                Err(e) => {
                    proof {
                        assert(properties@[k as int]@ == ps[k as int]);
                    }
                    return Err(e);
                },
            }
            k = k + 1;
            proof {
                assert(properties@[k - 1]@ == ps[k - 1]);
                assert(ps.take(k as int).drop_last() =~= ps.take(k - 1));
                assert(ps.take(k as int).last() == ps[k - 1]);
                assert(out@ =~= head + props_text(ps.take(k as int), depth as int + 1));
            }
        }
        proof {
            assert(ps.take(n as int) =~= ps);
        }
        if usize::MAX - sink.tell() < out.len() {
            return Err(Error::DataTooLarge("No room left in the sink".to_owned()));
        }
        let ghost base = sink.data@;
        sink.write_bytes(out.as_slice());
        proof {
            lemma_splice_append(base, out@);
            assert(sink.data@ =~= base + ascii_start_node_bytes(st, name@, ps));
        }
        Ok(())
    }

    /// Closes the innermost node, placing braces and newlines as its
    /// contents demand.
    pub fn emit_end_node(&mut self, sink: &mut MemSink) -> (r: Result<()>)
        requires
            old(sink).wf(),
            old(sink).pos == old(sink).data@.len(),
        ensures
            final(sink).wf(),
            final(sink).pos == final(sink).data@.len(),
            if old(self).prop_child_existence@.len() == 0 {
                &&& r matches Err(e) && e == Error::ExtraEndNode
                &&& *final(sink) == *old(sink)
                &&& *final(self) == *old(self)
            } else {
                let st = old(self).prop_child_existence@;
                let written = ascii_end_node_bytes(st.last(), st.len() - 1);
                if old(sink).data@.len() + written.len() <= usize::MAX {
                    &&& r is Ok
                    &&& final(sink).data@ == old(sink).data@ + written
                    &&& final(self).prop_child_existence@ == st.drop_last()
                } else {
                    r matches Err(e) && e is DataTooLarge
                }
            },
    {
        if self.prop_child_existence.len() == 0 {
            return Err(Error::ExtraEndNode);
        }
        let top = self.prop_child_existence.pop().unwrap();
        let depth = self.prop_child_existence.len();
        let mut out: Vec<u8> = Vec::new();
        if !top.0 || top.1 {
            if !top.0 && !top.1 {
                out.push(0x20);
                out.push(0x7b);
                out.push(0x0a);
            }
            indent(&mut out, depth);
            out.push(0x7d);
            out.push(0x0a);
        } else {
            out.push(0x0a);
        }
        proof {
            assert(out@ =~= ascii_end_node_bytes(top, depth as int));
        }
        if usize::MAX - sink.tell() < out.len() {
            return Err(Error::DataTooLarge("No room left in the sink".to_owned()));
        }
        let ghost base = sink.data@;
        sink.write_bytes(out.as_slice());
        proof {
            lemma_splice_append(base, out@);
        }
        Ok(())
    }

    /// Writes a comment: each of its lines indented and closed with a
    /// line feed.
    pub fn emit_comment(&mut self, sink: &mut MemSink, comment: &str) -> (r: Result<()>)
        requires
            old(sink).wf(),
            old(sink).pos == old(sink).data@.len(),
        ensures
            *final(self) == *old(self),
            final(sink).wf(),
            final(sink).pos == final(sink).data@.len(),
            ({
                let depth = old(self).prop_child_existence@.len() as int;
                let written = comment_text(depth, encode_utf8(comment@), 0);
                if old(sink).data@.len() + written.len() <= usize::MAX {
                    r is Ok && final(sink).data@ == old(sink).data@ + written
                } else {
                    r matches Err(e) && e is DataTooLarge
                }
            }),
    {
        let depth = self.prop_child_existence.len();
        let bs = comment.as_bytes();
        let n = bs.len();
        let mut out: Vec<u8> = Vec::new();
        let mut i: usize = 0;
        let ghost mut gpos: int = 0;
        proof {
            assert(out@ + comment_text(depth as int, bs@, 0) =~= comment_text(
                depth as int,
                bs@,
                0,
            ));
        }
        while i < n
            invariant
                i <= n,
                n == bs@.len(),
                i < n ==> gpos == i as int,
                gpos >= i as int,
                out@ + comment_text(depth as int, bs@, gpos) == comment_text(
                    depth as int,
                    bs@,
                    0,
                ),
            decreases n - i,
        {
            let mut j: usize = i;
            while j < n && bs[j] != 0x0a
                invariant
                    i <= j <= n == bs@.len(),
                    forall|q: int| i <= q < j ==> bs@[q] != 0x0a,
                decreases n - j,
            {
                j = j + 1;
            }
            proof {
                lemma_find_lf_from(bs@, i as int, j as int);
            }
            indent(&mut out, depth);
            let line = vstd::slice::slice_subrange(bs, i, j);
            let mut lv = vstd::slice::slice_to_vec(line);
            out.append(&mut lv);
            out.push(0x0a);
            proof {
                assert(out@ + comment_text(depth as int, bs@, j + 1) =~= comment_text(
                    depth as int,
                    bs@,
                    0,
                ));
                gpos = j + 1;
            }
            if j < n {
                i = j + 1;
            } else {
                i = n;
            }
        }
        proof {
            assert(comment_text(depth as int, bs@, gpos) =~= Seq::<u8>::empty());
            assert(out@ =~= comment_text(depth as int, bs@, 0));
        }
        if usize::MAX - sink.tell() < out.len() {
            return Err(Error::DataTooLarge("No room left in the sink".to_owned()));
        }
        let ghost base = sink.data@;
        sink.write_bytes(out.as_slice());
        proof {
            lemma_splice_append(base, out@);
        }
        Ok(())
    }
}

} // verus!
