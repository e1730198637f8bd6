//! The binary FBX emitter: placeholder fields, seek-back fixups, the
//! property encoder with zlib-compressed arrays, and the footer.

use vstd::prelude::*;
use vstd::bytes::{spec_u32_to_le_bytes, u32_to_le_bytes, u64_to_le_bytes};
use vstd::utf8::encode_utf8;

use crate::common::{bprops_view, PropData, Property};
use crate::compress::zlib_compress;
use crate::wire::{
    bytes_of_bools, bytes_of_i32s, bytes_of_i64s, bytes_of_u32s, bytes_of_u64s, enc_field,
    enc_prop, enc_props, fbx_magic, fbx_magic_bytes, field_width, header_size, null_record_bytes,
    placeholder_field, prop_fits, props_fit, BOOL_FALSE, BOOL_TRUE, TC_ARR_BOOL, TC_ARR_F32,
    TC_ARR_F64, TC_ARR_I32, TC_ARR_I64, TC_BINARY, TC_BOOL, TC_F32, TC_F64, TC_I16, TC_I32,
    TC_I64, TC_STRING,
};
use crate::writer::error::{Error, Result};
use crate::writer::sink::{lemma_splice_append, lemma_splice_middle, splice, MemSink};

verus! {

/// `n` zero bytes.
pub open spec fn zero_bytes(n: int) -> Seq<u8> {
    Seq::new(n as nat, |i: int| 0u8)
}

/// The 16 footer bytes written right after the top-level terminator
/// (meaning unknown, value fixed by observation).
pub open spec fn footer_magic_a() -> Seq<u8> {
    seq![0xfau8, 0xbc, 0xaf, 0x0f, 0xdf, 0xcf, 0xdf, 0x6f, 0xbf, 0x7f, 0xff, 0x8f, 0x1f, 0xff, 0x2f, 0x7f]
}

/// The fixed 16 bytes every binary FBX stream ends with.
pub open spec fn footer_magic_b() -> Seq<u8> {
    seq![0xf8u8, 0x5a, 0x8c, 0x6a, 0xde, 0xf5, 0xd9, 0x7e, 0xec, 0xe9, 0x0c, 0xe3, 0x75, 0x8f, 0x29, 0x0b]
}

fn footer_magic_a_bytes() -> (r: Vec<u8>)
    ensures
        r@ == footer_magic_a(),
{
    let mut v: Vec<u8> = Vec::new();
    v.push(0xfa);
    v.push(0xbc);
    v.push(0xaf);
    v.push(0x0f);
    v.push(0xdf);
    v.push(0xcf);
    v.push(0xdf);
    v.push(0x6f);
    v.push(0xbf);
    v.push(0x7f);
    v.push(0xff);
    v.push(0x8f);
    v.push(0x1f);
    v.push(0xff);
    v.push(0x2f);
    v.push(0x7f);
    proof {
        assert(v@ =~= footer_magic_a());
    }
    v
}

fn footer_magic_b_bytes() -> (r: Vec<u8>)
    ensures
        r@ == footer_magic_b(),
{
    let mut v: Vec<u8> = Vec::new();
    v.push(0xf8);
    v.push(0x5a);
    v.push(0x8c);
    v.push(0x6a);
    v.push(0xde);
    v.push(0xf5);
    v.push(0xd9);
    v.push(0x7e);
    v.push(0xec);
    v.push(0xe9);
    v.push(0x0c);
    v.push(0xe3);
    v.push(0x75);
    v.push(0x8f);
    v.push(0x29);
    v.push(0x0b);
    proof {
        assert(v@ =~= footer_magic_b());
    }
    v
}

/// What starting a binary stream appends: magic, NUL, the `0x1a 0x00`
/// pair, then the version word.
pub open spec fn start_fbx_bytes(ver: u32) -> Seq<u8> {
    fbx_magic() + seq![0u8, 0x1au8, 0u8] + spec_u32_to_le_bytes(ver)
}

/// What opening a node appends: the header with the end offset still a
/// placeholder, the name, and the properties.
pub open spec fn start_node_bytes(version: u32, name: Seq<char>, ps: Seq<PropData>) -> Seq<u8> {
    placeholder_field(version) + enc_field(ps.len() as u64, version) + enc_field(
        enc_props(ps).len() as u64,
        version,
    ) + seq![encode_utf8(name).len() as u8] + encode_utf8(name) + enc_props(ps)
}

/// Whether the format and the machine can carry the node: the name length
/// fits its byte, every count fits its field, and the buffer can grow by
/// the node's bytes.
pub open spec fn start_node_ok(version: u32, name: Seq<char>, ps: Seq<PropData>, oldlen: int) -> bool {
    &&& encode_utf8(name).len() <= 255
    &&& props_fit(ps)
    &&& (version < 7500 ==> ps.len() <= u32::MAX)
    &&& (version < 7500 ==> enc_props(ps).len() <= u32::MAX)
    &&& oldlen + start_node_bytes(version, name, ps).len() <= usize::MAX
}

/// The top flag set, where there is one: the parent now has a child.
pub open spec fn set_top_true(s: Seq<bool>) -> Seq<bool> {
    if s.len() == 0 {
        s
    } else {
        s.update(s.len() - 1, true)
    }
}

/// What ending the stream appends: the top-level terminator, the first
/// footer magic, zero padding to the next multiple of 16, four zero bytes,
/// the version word, 120 zero bytes, and the closing magic.
pub open spec fn end_fbx_bytes(version: u32, oldlen: int) -> Seq<u8> {
    null_record_bytes(version) + footer_magic_a() + zero_bytes(
        footer_pad(version, oldlen),
    ) + zero_bytes(4) + spec_u32_to_le_bytes(version) + zero_bytes(120) + footer_magic_b()
}

/// Zero padding that brings the offset after the first footer magic to a
/// multiple of 16.
pub open spec fn footer_pad(version: u32, oldlen: int) -> int {
    (16 - ((oldlen + header_size(version) + 16) % 16)) % 16
}

/// A writer for binary FBX.
#[derive(Debug, Clone)]
pub struct BinaryEmitter {
    /// The stream's FBX version, fixed at `StartFbx`.
    pub version: u32,
    /// Buffer offsets of the end-offset placeholders of the open nodes,
    /// innermost last.
    pub end_offset_pos_stack: Vec<usize>,
    /// For each open node, whether it needs a null-record terminator:
    /// true once it has a child, and for nodes opened without properties.
    pub null_record_necessities: Vec<bool>,
}

impl BinaryEmitter {
    /// The two stacks pair up, every recorded placeholder lies within the
    /// sink, and the sink is positioned at its end.
    pub open spec fn wf(&self, sink: MemSink) -> bool {
        &&& self.end_offset_pos_stack@.len() == self.null_record_necessities@.len()
        &&& sink.pos == sink.data@.len()
        &&& (forall|i: int|
            0 <= i < self.end_offset_pos_stack@.len() ==> #[trigger] self.end_offset_pos_stack@[i]
                + field_width(self.version) <= sink.data@.len())
    }

    /// Constructs a binary FBX writer for the given stream version.
    pub fn new(version: u32) -> (r: Self)
        ensures
            r.version == version,
            r.end_offset_pos_stack@ == Seq::<usize>::empty(),
            r.null_record_necessities@ == Seq::<bool>::empty(),
    {
        BinaryEmitter {
            version,
            end_offset_pos_stack: Vec::new(),
            null_record_necessities: Vec::new(),
        }
    }

    /// Writes the stream header.  Only 7000-series versions are supported.
    pub fn emit_start_fbx(&mut self, sink: &mut MemSink, ver: u32) -> (r: Result<()>)
        requires
            old(self).wf(*old(sink)),
        ensures
            *final(self) == *old(self),
            if 7000 <= ver < 8000 && old(sink).data@.len() + 27 <= usize::MAX {
                &&& r is Ok
                &&& final(sink).data@ == old(sink).data@ + start_fbx_bytes(ver)
                &&& final(self).wf(*final(sink))
            } else if !(7000 <= ver < 8000) {
                &&& r matches Err(e) && e == Error::UnsupportedFbxVersion(ver)
                &&& *final(sink) == *old(sink)
            } else {
                &&& r matches Err(e) && e is DataTooLarge
                &&& *final(sink) == *old(sink)
            },
    {
        proof {
            crate::wire::lemma_le_lens();
        }
        if ver < 7000 || ver >= 8000 {
            return Err(Error::UnsupportedFbxVersion(ver));
        }
        if usize::MAX - sink.tell() < 27 {
            return Err(Error::DataTooLarge("No room left in the sink".to_owned()));
        }
        let ghost base = sink.data@;
        let magic = fbx_magic_bytes();
        sink.write_bytes(magic.as_slice());
        proof {
            lemma_splice_append(base, fbx_magic());
        }
        let ghost d1 = sink.data@;
        let mut pair: Vec<u8> = Vec::new();
        pair.push(0x00);
        pair.push(0x1a);
        pair.push(0x00);
        sink.write_bytes(pair.as_slice());
        proof {
            lemma_splice_append(d1, pair@);
        }
        let ghost d2 = sink.data@;
        sink.write_u32_le(ver);
        proof {
            lemma_splice_append(d2, spec_u32_to_le_bytes(ver));
            assert(sink.data@ =~= base + start_fbx_bytes(ver));
        }
        Ok(())
    }


    /// Opens a node: writes the header with a placeholder end offset, the
    /// name, then the properties, and patches the property-list size in
    /// once it is known.  The end offset itself is patched by
    /// `emit_end_node`.
    #[verifier::rlimit(80)]
    pub fn emit_start_node(
        &mut self,
        sink: &mut MemSink,
        name: &str,
        properties: &[Property<'_>],
    ) -> (r: Result<()>)
        requires
            old(self).wf(*old(sink)),
        ensures
            final(self).version == old(self).version,
            if start_node_ok(
                old(self).version,
                name@,
                bprops_view(properties@),
                old(sink).data@.len() as int,
            ) {
                &&& r is Ok
                &&& final(sink).data@ == old(sink).data@ + start_node_bytes(
                    old(self).version,
                    name@,
                    bprops_view(properties@),
                )
                &&& final(self).end_offset_pos_stack@ == old(self).end_offset_pos_stack@.push(
                    old(sink).data@.len() as usize,
                )
                &&& final(self).null_record_necessities@ == set_top_true(
                    old(self).null_record_necessities@,
                ).push(properties@.len() == 0)
                &&& final(self).wf(*final(sink))
            } else {
                r matches Err(e) && e is DataTooLarge
            },
    {
        proof {
            crate::wire::lemma_le_lens();
        }
        let ghost version = self.version;
        let ghost ps = bprops_view(properties@);
        let ghost base = sink.data@;
        // The parent, where there is one, now has a child and needs a
        // null-record terminator; this node starts out needing one exactly
        // when it has no properties.
        let flags_len = self.null_record_necessities.len();
        if flags_len > 0 {
            self.null_record_necessities.set(flags_len - 1, true);
        }
        self.null_record_necessities.push(properties.len() == 0);
        proof {
            assert(self.null_record_necessities@ =~= set_top_true(
                old(self).null_record_necessities@,
            ).push(properties@.len() == 0));
        }
        let name_bytes = name.as_bytes();
        if name_bytes.len() > 255 {
            return Err(Error::DataTooLarge("Node name longer than 255 bytes".to_owned()));
        }
        if self.version < 7500 && properties.len() > u32::MAX as usize {
            return Err(Error::DataTooLarge("Too many properties for this version".to_owned()));
        }
        let w: usize = if self.version < 7500 {
            4
        } else {
            8
        };
        if usize::MAX - sink.tell() < 3 * w + 1 || usize::MAX - sink.tell() - (3 * w + 1)
            < name_bytes.len() {
            return Err(Error::DataTooLarge("No room left in the sink".to_owned()));
        }
        let slot = sink.tell();
        self.end_offset_pos_stack.push(slot);
        if self.version < 7500 {
            sink.write_u32_le(0xdead_beef);
        } else {
            sink.write_u64_le(0xdead_beef_dead_beef);
        }
        proof {
            lemma_splice_append(base, placeholder_field(version));
        }
        let ghost d1 = sink.data@;
        BinaryEmitter::write_field(sink, properties.len() as u64, self.version);
        proof {
            lemma_splice_append(d1, enc_field(properties@.len() as u64, version));
        }
        let ghost d2 = sink.data@;
        let props_len_slot = sink.tell();
        BinaryEmitter::write_field(sink, 0, self.version);
        proof {
            lemma_splice_append(d2, enc_field(0, version));
        }
        let ghost d3 = sink.data@;
        sink.write_u8(name_bytes.len() as u8);
        proof {
            lemma_splice_append(d3, seq![name_bytes@.len() as u8]);
        }
        let ghost d4 = sink.data@;
        sink.write_bytes(name_bytes);
        proof {
            lemma_splice_append(d4, name_bytes@);
        }
        let ghost props_base = sink.data@;
        let props_start = sink.tell();
        let n = properties.len();
        let mut k: usize = 0;
        proof {
            assert(ps.take(0) =~= Seq::<PropData>::empty());
            assert(props_base + enc_props(ps.take(0)) =~= props_base);
        }
        while k < n
            invariant
                k <= n == properties@.len(),
                ps == bprops_view(properties@),
                self.version == old(self).version == version,
                self.end_offset_pos_stack@ == old(self).end_offset_pos_stack@.push(
                    old(sink).data@.len() as usize,
                ),
                self.null_record_necessities@ == set_top_true(
                    old(self).null_record_necessities@,
                ).push(properties@.len() == 0),
                base == old(sink).data@,
                name_bytes@ == encode_utf8(name@),
                name_bytes@.len() <= 255,
                version < 7500 ==> ps.len() <= u32::MAX,
                d2 == base + placeholder_field(version) + enc_field(ps.len() as u64, version),
                props_base == d2 + enc_field(0, version) + seq![name_bytes@.len() as u8]
                    + name_bytes@,
                props_len_slot == d2.len(),
                props_start == props_base.len(),
                base.len() + start_node_bytes(version, name@, ps).len() == props_base.len()
                    + enc_props(ps).len(),
                sink.wf(),
                sink.pos == sink.data@.len(),
                sink.data@ == props_base + enc_props(ps.take(k as int)),
                props_fit(ps.take(k as int)),
                props_base.len() + enc_props(ps.take(k as int)).len() == sink.data@.len(),
            decreases n - k,
        {
            let ghost before = sink.data@;
            let step = BinaryEmitter::emit_property(sink, &properties[k]);
            proof {
                assert(properties@[k as int]@ == ps[k as int]);
                assert(ps.take(k + 1).drop_last() =~= ps.take(k as int));
                assert(ps.take(k + 1).last() == ps[k as int]);
                crate::wire::lemma_enc_props_prefix_len(ps, k + 1);
            }
            match step {
                Ok(()) => {},
                Err(e) => {
                    proof {
                        if prop_fits(ps[k as int]) {
                            // The sink could not grow by this property, so
                            // it cannot grow by the whole node.
                            assert(before.len() + enc_prop(ps[k as int]).len() > usize::MAX);
                            assert(enc_props(ps.take(k + 1)).len() == enc_props(
                                ps.take(k as int),
                            ).len() + enc_prop(ps[k as int]).len());
                            assert(base.len() + start_node_bytes(version, name@, ps).len()
                                > usize::MAX);
                        } else {
                            assert(!props_fit(ps));
                        }
                    }
                    return Err(e);
                },
            }
            k = k + 1;
            proof {
                assert(sink.data@ =~= props_base + enc_props(ps.take(k as int)));
                assert forall|i: int| 0 <= i < k implies prop_fits(
                    #[trigger] ps.take(k as int)[i],
                ) by {
                    if i < k - 1 {
                        assert(ps.take(k - 1)[i] == ps.take(k as int)[i]);
                    } else {
                        assert(ps.take(k as int)[i] == ps[k - 1]);
                    }
                }
            }
        }
        proof {
            assert(ps.take(n as int) =~= ps);
            assert forall|i: int| 0 <= i < ps.len() implies prop_fits(#[trigger] ps[i]) by {
                assert(ps.take(n as int)[i] == ps[i]);
            }
        }
        let props_size = sink.tell() - props_start;
        if self.version < 7500 && props_size > u32::MAX as usize {
            return Err(
                Error::DataTooLarge("Property list too large for this version".to_owned()),
            );
        }
        sink.seek_to(props_len_slot);
        BinaryEmitter::write_field(sink, props_size as u64, self.version);
        sink.seek_end();
        proof {
            crate::wire::lemma_le_lens();
            let patched = enc_field(props_size as u64, version);
            let tail = seq![name_bytes@.len() as u8] + name_bytes@ + enc_props(ps);
            assert(props_base + enc_props(ps) =~= d2 + enc_field(0, version) + tail);
            lemma_splice_middle(d2, enc_field(0, version), tail, patched);
            assert(sink.data@ =~= base + start_node_bytes(version, name@, ps));
        }
        Ok(())
    }

    /// Closes the innermost open node: writes its null-record terminator
    /// when it needs one, then patches the node header's end offset with
    /// the position reached.
    pub fn emit_end_node(&mut self, sink: &mut MemSink) -> (r: Result<()>)
        requires
            old(self).wf(*old(sink)),
        ensures
            final(self).version == old(self).version,
            if old(self).null_record_necessities@.len() == 0 {
                &&& r matches Err(e) && e == Error::ExtraEndNode
                &&& *final(sink) == *old(sink)
                &&& *final(self) == *old(self)
            } else {
                let flag = old(self).null_record_necessities@.last();
                let nullrec = if flag {
                    null_record_bytes(old(self).version)
                } else {
                    Seq::<u8>::empty()
                };
                let newlen = old(sink).data@.len() + nullrec.len();
                let slot = old(self).end_offset_pos_stack@.last();
                if newlen <= usize::MAX && (old(self).version >= 7500 || newlen <= u32::MAX) {
                    &&& r is Ok
                    &&& final(sink).data@ == splice(
                        old(sink).data@ + nullrec,
                        slot as int,
                        enc_field(newlen as u64, old(self).version),
                    )
                    &&& final(self).end_offset_pos_stack@ == old(
                        self,
                    ).end_offset_pos_stack@.drop_last()
                    &&& final(self).null_record_necessities@ == old(
                        self,
                    ).null_record_necessities@.drop_last()
                    &&& final(self).wf(*final(sink))
                } else {
                    r matches Err(e) && e is DataTooLarge
                }
            },
    {
        proof {
            crate::wire::lemma_le_lens();
        }
        if self.null_record_necessities.len() == 0 {
            return Err(Error::ExtraEndNode);
        }
        let flag = self.null_record_necessities.pop().unwrap();
        let slot = self.end_offset_pos_stack.pop().unwrap();
        let h: usize = if self.version < 7500 {
            13
        } else {
            25
        };
        let ghost base = sink.data@;
        if flag {
            if usize::MAX - sink.tell() < h {
                return Err(Error::DataTooLarge("No room left in the sink".to_owned()));
            }
            BinaryEmitter::write_null_record(sink, self.version);
        }
        let last = sink.tell();
        if self.version < 7500 && last > u32::MAX as usize {
            return Err(
                Error::DataTooLarge("Stream position too large for this version".to_owned()),
            );
        }
        proof {
            if !flag {
                assert(sink.data@ =~= base + Seq::<u8>::empty());
            }
        }
        sink.seek_to(slot);
        BinaryEmitter::write_field(sink, last as u64, self.version);
        sink.seek_end();
        Ok(())
    }

    /// Ends the stream: writes the implicit root's terminator, then the
    /// footer with its padding and closing magic.
    pub fn emit_end_fbx(&mut self, sink: &mut MemSink) -> (r: Result<()>)
        requires
            old(self).wf(*old(sink)),
        ensures
            *final(self) == *old(self),
            if old(sink).data@.len() + end_fbx_bytes(
                old(self).version,
                old(sink).data@.len() as int,
            ).len() <= usize::MAX {
                &&& r is Ok
                &&& final(sink).data@ == old(sink).data@ + end_fbx_bytes(
                    old(self).version,
                    old(sink).data@.len() as int,
                )
                &&& final(self).wf(*final(sink))
            } else {
                r matches Err(e) && e is DataTooLarge
            },
    {
        proof {
            crate::wire::lemma_le_lens();
        }
        let ghost version = self.version;
        let ghost base = sink.data@;
        let h: usize = if self.version < 7500 {
            13
        } else {
            25
        };
        let m = (sink.tell() % 16 + h % 16) % 16;
        let pad = (16 - m) % 16;
        proof {
            vstd::arithmetic::div_mod::lemma_add_mod_noop(
                base.len() as int + h as int,
                16,
                16,
            );
            vstd::arithmetic::div_mod::lemma_add_mod_noop(base.len() as int, h as int, 16);
            vstd::arithmetic::div_mod::lemma_mod_twice(base.len() as int, 16);
            vstd::arithmetic::div_mod::lemma_mod_twice(h as int, 16);
            vstd::arithmetic::div_mod::lemma_mod_twice(base.len() as int + h as int, 16);
            assert(pad == footer_pad(version, base.len() as int));
        }
        let total = h + 160 + pad;
        if usize::MAX - sink.tell() < total {
            return Err(Error::DataTooLarge("No room left in the sink".to_owned()));
        }
        BinaryEmitter::write_null_record(sink, self.version);
        let ghost d1 = sink.data@;
        let magic_a = footer_magic_a_bytes();
        sink.write_bytes(magic_a.as_slice());
        proof {
            lemma_splice_append(d1, footer_magic_a());
        }
        let ghost d2 = sink.data@;
        sink.write_zeros(pad);
        proof {
            lemma_splice_append(d2, zero_bytes(pad as int));
        }
        let ghost d3 = sink.data@;
        sink.write_zeros(4);
        proof {
            lemma_splice_append(d3, zero_bytes(4));
        }
        let ghost d4 = sink.data@;
        sink.write_u32_le(self.version);
        proof {
            lemma_splice_append(d4, spec_u32_to_le_bytes(version));
        }
        let ghost d5 = sink.data@;
        sink.write_zeros(120);
        proof {
            lemma_splice_append(d5, zero_bytes(120));
        }
        let ghost d6 = sink.data@;
        let magic_b = footer_magic_b_bytes();
        sink.write_bytes(magic_b.as_slice());
        proof {
            lemma_splice_append(d6, footer_magic_b());
            assert(sink.data@ =~= base + end_fbx_bytes(version, base.len() as int));
        }
        Ok(())
    }

    /// Appends a null record: a zero-filled node header in this version's
    /// widths.
    fn write_null_record(sink: &mut MemSink, version: u32)
        requires
            old(sink).wf(),
            old(sink).pos == old(sink).data@.len(),
            old(sink).data@.len() + header_size(version) <= usize::MAX,
        ensures
            final(sink).wf(),
            final(sink).pos == final(sink).data@.len(),
            final(sink).data@ == old(sink).data@ + null_record_bytes(version),
    {
        proof {
            crate::wire::lemma_le_lens();
        }
        let ghost base = sink.data@;
        BinaryEmitter::write_field(sink, 0, version);
        proof {
            lemma_splice_append(base, enc_field(0, version));
        }
        let ghost d1 = sink.data@;
        BinaryEmitter::write_field(sink, 0, version);
        proof {
            lemma_splice_append(d1, enc_field(0, version));
        }
        let ghost d2 = sink.data@;
        BinaryEmitter::write_field(sink, 0, version);
        proof {
            lemma_splice_append(d2, enc_field(0, version));
        }
        let ghost d3 = sink.data@;
        sink.write_u8(0);
        proof {
            lemma_splice_append(d3, seq![0u8]);
            assert(sink.data@ =~= base + null_record_bytes(version));
        }
    }

    /// Writes one header field in the width the version dictates, at the
    /// current position.
    fn write_field(sink: &mut MemSink, v: u64, version: u32)
        requires
            old(sink).wf(),
            old(sink).pos + field_width(version) <= usize::MAX,
        ensures
            final(sink).data@ == splice(
                old(sink).data@,
                old(sink).pos as int,
                enc_field(v, version),
            ),
            final(sink).pos == old(sink).pos + field_width(version),
            final(sink).wf(),
    {
        if version < 7500 {
            sink.write_u32_le(v as u32);
        } else {
            sink.write_u64_le(v);
        }
    }

    /// Appends one property in its wire encoding.
    fn emit_property(sink: &mut MemSink, prop: &Property<'_>) -> (r: Result<()>)
        requires
            old(sink).wf(),
            old(sink).pos == old(sink).data@.len(),
        ensures
            final(sink).wf(),
            final(sink).pos == final(sink).data@.len(),
            old(sink).data@.len() <= final(sink).data@.len(),
            if prop_fits(prop@) && old(sink).data@.len() + enc_prop(prop@).len() <= usize::MAX {
                &&& r is Ok
                &&& final(sink).data@ == old(sink).data@ + enc_prop(prop@)
            } else {
                &&& r matches Err(e) && e is DataTooLarge
                &&& final(sink).data@ == old(sink).data@
            },
    {
        proof {
            crate::wire::lemma_le_lens();
            match prop@ {
                PropData::VecBool(v) => {
                    crate::wire::lemma_bytes_of_bools_len(v);
                },
                PropData::VecI32(v) => {
                    crate::wire::lemma_bytes_of_u32s_len(v.map_values(|x: i32| x as u32));
                },
                PropData::VecI64(v) => {
                    crate::wire::lemma_bytes_of_u64s_len(v.map_values(|x: i64| x as u64));
                },
                PropData::VecF32(v) => {
                    crate::wire::lemma_bytes_of_u32s_len(v);
                },
                PropData::VecF64(v) => {
                    crate::wire::lemma_bytes_of_u64s_len(v);
                },
                _ => {},
            }
        }
        let ghost base = sink.data@;
        match prop {
            Property::Bool(v) => {
                if usize::MAX - sink.tell() < 2 {
                    return Err(Error::DataTooLarge("No room left in the sink".to_owned()));
                }
                let mut b: Vec<u8> = Vec::new();
                b.push(TC_BOOL);
                b.push(
                    if *v {
                        BOOL_TRUE
                    } else {
                        BOOL_FALSE
                    },
                );
                sink.write_bytes(b.as_slice());
                proof {
                    lemma_splice_append(base, b@);
                    assert(sink.data@ =~= base + enc_prop(prop@));
                }
                Ok(())
            },
            Property::I16(v) => {
                if usize::MAX - sink.tell() < 3 {
                    return Err(Error::DataTooLarge("No room left in the sink".to_owned()));
                }
                sink.write_u8(TC_I16);
                proof {
                    lemma_splice_append(base, seq![TC_I16]);
                }
                let ghost d1 = sink.data@;
                sink.write_u16_le(*v as u16);
                proof {
                    lemma_splice_append(d1, vstd::bytes::spec_u16_to_le_bytes(*v as u16));
                    assert(sink.data@ =~= base + enc_prop(prop@));
                }
                Ok(())
            },
            Property::I32(v) => {
                if usize::MAX - sink.tell() < 5 {
                    return Err(Error::DataTooLarge("No room left in the sink".to_owned()));
                }
                sink.write_u8(TC_I32);
                proof {
                    lemma_splice_append(base, seq![TC_I32]);
                }
                let ghost d1 = sink.data@;
                sink.write_u32_le(*v as u32);
                proof {
                    lemma_splice_append(d1, spec_u32_to_le_bytes(*v as u32));
                    assert(sink.data@ =~= base + enc_prop(prop@));
                }
                Ok(())
            },
            Property::I64(v) => {
                if usize::MAX - sink.tell() < 9 {
                    return Err(Error::DataTooLarge("No room left in the sink".to_owned()));
                }
                sink.write_u8(TC_I64);
                proof {
                    lemma_splice_append(base, seq![TC_I64]);
                }
                let ghost d1 = sink.data@;
                sink.write_u64_le(*v as u64);
                proof {
                    lemma_splice_append(d1, vstd::bytes::spec_u64_to_le_bytes(*v as u64));
                    assert(sink.data@ =~= base + enc_prop(prop@));
                }
                Ok(())
            },
            Property::F32(v) => {
                if usize::MAX - sink.tell() < 5 {
                    return Err(Error::DataTooLarge("No room left in the sink".to_owned()));
                }
                sink.write_u8(TC_F32);
                proof {
                    lemma_splice_append(base, seq![TC_F32]);
                }
                let ghost d1 = sink.data@;
                sink.write_u32_le(*v);
                proof {
                    lemma_splice_append(d1, spec_u32_to_le_bytes(*v));
                    assert(sink.data@ =~= base + enc_prop(prop@));
                }
                Ok(())
            },
            Property::F64(v) => {
                if usize::MAX - sink.tell() < 9 {
                    return Err(Error::DataTooLarge("No room left in the sink".to_owned()));
                }
                sink.write_u8(TC_F64);
                proof {
                    lemma_splice_append(base, seq![TC_F64]);
                }
                let ghost d1 = sink.data@;
                sink.write_u64_le(*v);
                proof {
                    lemma_splice_append(d1, vstd::bytes::spec_u64_to_le_bytes(*v));
                    assert(sink.data@ =~= base + enc_prop(prop@));
                }
                Ok(())
            },
            Property::VecBool(v) => {
                if v.len() > u32::MAX as usize {
                    return Err(
                        Error::DataTooLarge("Array length does not fit its field".to_owned()),
                    );
                }
                if usize::MAX - sink.tell() < 13 || usize::MAX - sink.tell() - 13 < v.len() {
                    return Err(Error::DataTooLarge("No room left in the sink".to_owned()));
                }
                let body = bool_bytes(v);
                sink.write_u8(TC_ARR_BOOL);
                proof {
                    lemma_splice_append(base, seq![TC_ARR_BOOL]);
                }
                let ghost d1 = sink.data@;
                sink.write_u32_le(v.len() as u32);
                proof {
                    lemma_splice_append(d1, spec_u32_to_le_bytes(v@.len() as u32));
                }
                let ghost d2 = sink.data@;
                sink.write_u32_le(0);
                proof {
                    lemma_splice_append(d2, spec_u32_to_le_bytes(0));
                }
                let ghost d3 = sink.data@;
                sink.write_u32_le(v.len() as u32);
                proof {
                    lemma_splice_append(d3, spec_u32_to_le_bytes(v@.len() as u32));
                }
                let ghost d4 = sink.data@;
                sink.write_bytes(body.as_slice());
                proof {
                    lemma_splice_append(d4, body@);
                    assert(sink.data@ =~= base + enc_prop(prop@));
                }
                Ok(())
            },
            Property::VecI32(v) => {
                let body = i32_bytes(v);
                BinaryEmitter::emit_deflated_array(sink, TC_ARR_I32, v.len(), body, Ghost(prop@))
            },
            Property::VecI64(v) => {
                let body = i64_bytes(v);
                BinaryEmitter::emit_deflated_array(sink, TC_ARR_I64, v.len(), body, Ghost(prop@))
            },
            Property::VecF32(v) => {
                let body = u32_bytes(v);
                BinaryEmitter::emit_deflated_array(sink, TC_ARR_F32, v.len(), body, Ghost(prop@))
            },
            Property::VecF64(v) => {
                let body = u64_bytes(v);
                BinaryEmitter::emit_deflated_array(sink, TC_ARR_F64, v.len(), body, Ghost(prop@))
            },
            Property::String(s) => {
                let bytes = s.as_bytes();
                if bytes.len() > u32::MAX as usize {
                    return Err(
                        Error::DataTooLarge("String length does not fit its field".to_owned()),
                    );
                }
                if usize::MAX - sink.tell() < 5 || usize::MAX - sink.tell() - 5 < bytes.len() {
                    return Err(Error::DataTooLarge("No room left in the sink".to_owned()));
                }
                sink.write_u8(TC_STRING);
                proof {
                    lemma_splice_append(base, seq![TC_STRING]);
                }
                let ghost d1 = sink.data@;
                sink.write_u32_le(bytes.len() as u32);
                proof {
                    lemma_splice_append(d1, spec_u32_to_le_bytes(bytes@.len() as u32));
                }
                let ghost d2 = sink.data@;
                sink.write_bytes(bytes);
                proof {
                    lemma_splice_append(d2, bytes@);
                    assert(sink.data@ =~= base + enc_prop(prop@));
                }
                Ok(())
            },
            Property::Binary(bts) => {
                if bts.len() > u32::MAX as usize {
                    return Err(
                        Error::DataTooLarge("Binary length does not fit its field".to_owned()),
                    );
                }
                if usize::MAX - sink.tell() < 5 || usize::MAX - sink.tell() - 5 < bts.len() {
                    return Err(Error::DataTooLarge("No room left in the sink".to_owned()));
                }
                sink.write_u8(TC_BINARY);
                proof {
                    lemma_splice_append(base, seq![TC_BINARY]);
                }
                let ghost d1 = sink.data@;
                sink.write_u32_le(bts.len() as u32);
                proof {
                    lemma_splice_append(d1, spec_u32_to_le_bytes(bts@.len() as u32));
                }
                let ghost d2 = sink.data@;
                sink.write_bytes(bts);
                proof {
                    lemma_splice_append(d2, bts@);
                    assert(sink.data@ =~= base + enc_prop(prop@));
                }
                Ok(())
            },
        }
    }

    /// Appends a numeric array property: its header with encoding 1, then
    /// the zlib block holding `body`.
    fn emit_deflated_array(
        sink: &mut MemSink,
        code: u8,
        n: usize,
        body: Vec<u8>,
        Ghost(p): Ghost<PropData>,
    ) -> (r: Result<()>)
        requires
            old(sink).wf(),
            old(sink).pos == old(sink).data@.len(),
            enc_prop(p) == crate::wire::enc_arr_deflated(code, n as nat, body@),
            prop_fits(p) == (n <= u32::MAX && crate::compress::deflate_of(body@).len()
                <= u32::MAX),
        ensures
            final(sink).wf(),
            final(sink).pos == final(sink).data@.len(),
            old(sink).data@.len() <= final(sink).data@.len(),
            if prop_fits(p) && old(sink).data@.len() + enc_prop(p).len() <= usize::MAX {
                &&& r is Ok
                &&& final(sink).data@ == old(sink).data@ + enc_prop(p)
            } else {
                &&& r matches Err(e) && e is DataTooLarge
                &&& final(sink).data@ == old(sink).data@
            },
    {
        proof {
            crate::wire::lemma_le_lens();
        }
        let ghost base = sink.data@;
        if n > u32::MAX as usize {
            return Err(Error::DataTooLarge("Array length does not fit its field".to_owned()));
        }
        let compressed = zlib_compress(body.as_slice());
        if compressed.len() > u32::MAX as usize {
            return Err(
                Error::DataTooLarge("Compressed array does not fit its field".to_owned()),
            );
        }
        if usize::MAX - sink.tell() < 13 || usize::MAX - sink.tell() - 13 < compressed.len() {
            return Err(Error::DataTooLarge("No room left in the sink".to_owned()));
        }
        sink.write_u8(code);
        proof {
            lemma_splice_append(base, seq![code]);
        }
        let ghost d1 = sink.data@;
        sink.write_u32_le(n as u32);
        proof {
            lemma_splice_append(d1, spec_u32_to_le_bytes(n as u32));
        }
        let ghost d2 = sink.data@;
        sink.write_u32_le(1);
        proof {
            lemma_splice_append(d2, spec_u32_to_le_bytes(1));
        }
        let ghost d3 = sink.data@;
        sink.write_u32_le(compressed.len() as u32);
        proof {
            lemma_splice_append(d3, spec_u32_to_le_bytes(compressed@.len() as u32));
        }
        let ghost d4 = sink.data@;
        sink.write_bytes(compressed.as_slice());
        proof {
            lemma_splice_append(d4, compressed@);
            assert(sink.data@ =~= base + enc_prop(p));
        }
        Ok(())
    }
}

/// The booleans as `Y`/`T` bytes.
fn bool_bytes(v: &[bool]) -> (r: Vec<u8>)
    ensures
        r@ == bytes_of_bools(v@),
{
    let mut out: Vec<u8> = Vec::new();
    let n = v.len();
    let mut k: usize = 0;
    while k < n
        invariant
            k <= n == v@.len(),
            out@ == bytes_of_bools(v@.take(k as int)),
        decreases n - k,
    {
        out.push(
            if v[k] {
                BOOL_TRUE
            } else {
                BOOL_FALSE
            },
        );
        k = k + 1;
        proof {
            assert(v@.take(k as int).drop_last() =~= v@.take(k - 1));
            assert(out@ =~= bytes_of_bools(v@.take(k as int)));
        }
    }
    proof {
        assert(v@.take(n as int) =~= v@);
    }
    out
}

/// The words' little-endian bytes, in order.
fn u32_bytes(v: &[u32]) -> (r: Vec<u8>)
    ensures
        r@ == bytes_of_u32s(v@),
{
    let mut out: Vec<u8> = Vec::new();
    let n = v.len();
    let mut k: usize = 0;
    while k < n
        invariant
            k <= n == v@.len(),
            out@ == bytes_of_u32s(v@.take(k as int)),
        decreases n - k,
    {
        let mut b = u32_to_le_bytes(v[k]);
        out.append(&mut b);
        k = k + 1;
        proof {
            assert(v@.take(k as int).drop_last() =~= v@.take(k - 1));
            assert(out@ =~= bytes_of_u32s(v@.take(k as int)));
        }
    }
    proof {
        assert(v@.take(n as int) =~= v@);
    }
    out
}

/// The words' little-endian bytes, in order.
fn u64_bytes(v: &[u64]) -> (r: Vec<u8>)
    ensures
        r@ == bytes_of_u64s(v@),
{
    let mut out: Vec<u8> = Vec::new();
    let n = v.len();
    let mut k: usize = 0;
    while k < n
        invariant
            k <= n == v@.len(),
            out@ == bytes_of_u64s(v@.take(k as int)),
        decreases n - k,
    {
        let mut b = u64_to_le_bytes(v[k]);
        out.append(&mut b);
        k = k + 1;
        proof {
            assert(v@.take(k as int).drop_last() =~= v@.take(k - 1));
            assert(out@ =~= bytes_of_u64s(v@.take(k as int)));
        }
    }
    proof {
        assert(v@.take(n as int) =~= v@);
    }
    out
}

/// The values' little-endian two's complement bytes, in order.
fn i32_bytes(v: &[i32]) -> (r: Vec<u8>)
    ensures
        r@ == bytes_of_i32s(v@),
{
    let mut out: Vec<u8> = Vec::new();
    let n = v.len();
    let mut k: usize = 0;
    while k < n
        invariant
            k <= n == v@.len(),
            out@ == bytes_of_i32s(v@.take(k as int)),
        decreases n - k,
    {
        let mut b = u32_to_le_bytes(v[k] as u32);
        out.append(&mut b);
        k = k + 1;
        proof {
            let f = |x: i32| x as u32;
            assert(v@.take(k as int).map_values(f).drop_last() =~= v@.take(k - 1).map_values(f));
            assert(v@.take(k as int).map_values(f).last() == v@[k - 1] as u32);
            assert(out@ =~= bytes_of_i32s(v@.take(k as int)));
        }
    }
    proof {
        assert(v@.take(n as int) =~= v@);
    }
    out
}

/// The values' little-endian two's complement bytes, in order.
fn i64_bytes(v: &[i64]) -> (r: Vec<u8>)
    ensures
        r@ == bytes_of_i64s(v@),
{
    let mut out: Vec<u8> = Vec::new();
    let n = v.len();
    let mut k: usize = 0;
    while k < n
        invariant
            k <= n == v@.len(),
            out@ == bytes_of_i64s(v@.take(k as int)),
        decreases n - k,
    {
        let mut b = u64_to_le_bytes(v[k] as u64);
        out.append(&mut b);
        k = k + 1;
        proof {
            let f = |x: i64| x as u64;
            assert(v@.take(k as int).map_values(f).drop_last() =~= v@.take(k - 1).map_values(f));
            assert(v@.take(k as int).map_values(f).last() == v@[k - 1] as u64);
            assert(out@ =~= bytes_of_i64s(v@.take(k as int)));
        }
    }
    proof {
        assert(v@.take(n as int) =~= v@);
    }
    out
}

} // verus!
