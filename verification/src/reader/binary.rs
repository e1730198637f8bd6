//! The binary FBX parser: node-record headers, the expected-end-offset
//! stack, and the property decoder, proved against the wire specification.

use vstd::prelude::*;

use crate::bytes::{read_bytes, read_i16_le, read_i32_le, read_i64_le, read_u32_le, read_u64_le};
use crate::common::{props_view, OwnedProperty};
use crate::compress::zlib_decompress;
use crate::reader::error::{class_of, Error, ErrorKind, Result};
use crate::reader::parser::CommonState;
use crate::reader::FbxEvent;
use crate::strconv::string_from_utf8;
use crate::wire::{
    elem_size, is_array_code, spec_binary_next, spec_prop_elems, spec_read_array, spec_read_header,
    spec_read_prop, spec_read_props, HeaderStep, NodeStep, PropStep, PropsStep, TC_ARR_BOOL,
    TC_ARR_F32, TC_ARR_F64, TC_ARR_I32, TC_ARR_I64, TC_BINARY, TC_BOOL, TC_F32, TC_F64, TC_I16,
    TC_I32, TC_I64, TC_STRING,
};

verus! {

/// A parser for binary FBX.
#[derive(Debug, Clone)]
pub struct BinaryParser {
    /// The stream's FBX version, from the header after the magic.
    pub version: u32,
    /// Absolute offsets at which the currently open nodes must end,
    /// innermost last.
    pub end_offset_stack: Vec<u64>,
}

/// A header of a node record, fields widened to 64 bits (below version
/// 7500 they are stored 32 bits wide).
#[derive(Debug, Copy, Clone)]
pub struct NodeRecordHeader {
    /// Absolute position of the end of the node.
    pub end_offset: u64,
    /// Number of properties the node has.
    pub num_properties: u64,
    /// Byte size of the node's property list in the stream.
    pub property_list_len: u64,
    /// Byte size of the node name.
    pub name_len: u8,
}

impl View for NodeRecordHeader {
    type V = crate::wire::HeaderData;

    open spec fn view(&self) -> crate::wire::HeaderData {
        crate::wire::HeaderData {
            end_offset: self.end_offset,
            num_properties: self.num_properties,
            property_list_len: self.property_list_len,
            name_len: self.name_len,
        }
    }
}

impl NodeRecordHeader {
    /// Reads a node-record header at `*pos`, advancing it.
    pub fn read(buf: &[u8], pos: &mut usize, version: u32) -> (r: Result<Self>)
        requires
            *old(pos) <= buf@.len(),
        ensures
            *old(pos) <= *final(pos) <= buf@.len(),
            match spec_read_header(buf@, *old(pos) as int, version) {
                HeaderStep::HeaderDone(h, p) => r matches Ok(hh) && hh@ == h && *final(pos) == p,
                HeaderStep::HeaderFail(p) => (r matches Err(e) && e.pos == p
                    && e.kind is UnexpectedEof && *final(pos) == p),
            },
    {
        let len = buf.len();
        let w: usize = if version < 7500 {
            4
        } else {
            8
        };
        if len - *pos < w {
            return Err(Error::new(*pos as u64, ErrorKind::UnexpectedEof));
        }
        let end_offset: u64 = if version < 7500 {
            read_u32_le(buf, *pos) as u64
        } else {
            read_u64_le(buf, *pos)
        };
        *pos = *pos + w;
        if len - *pos < w {
            return Err(Error::new(*pos as u64, ErrorKind::UnexpectedEof));
        }
        let num_properties: u64 = if version < 7500 {
            read_u32_le(buf, *pos) as u64
        } else {
            read_u64_le(buf, *pos)
        };
        *pos = *pos + w;
        if len - *pos < w {
            return Err(Error::new(*pos as u64, ErrorKind::UnexpectedEof));
        }
        let property_list_len: u64 = if version < 7500 {
            read_u32_le(buf, *pos) as u64
        } else {
            read_u64_le(buf, *pos)
        };
        *pos = *pos + w;
        if len - *pos < 1 {
            return Err(Error::new(*pos as u64, ErrorKind::UnexpectedEof));
        }
        let name_len: u8 = buf[*pos];
        *pos = *pos + 1;
        Ok(NodeRecordHeader { end_offset, num_properties, property_list_len, name_len })
    }

    /// Whether the header is the null record, all four fields zero.
    pub fn is_null_record(&self) -> (r: bool)
        ensures
            r == self@.is_null(),
    {
        self.end_offset == 0 && self.num_properties == 0 && self.property_list_len == 0
            && self.name_len == 0
    }
}

/// A header of a property of array type.
#[derive(Debug, Copy, Clone)]
pub struct PropertyArrayHeader {
    /// Number of values in the array, *not* its byte size.
    pub array_length: u32,
    /// 0 for plain elements, 1 for a zlib-compressed block.
    pub encoding: u32,
    /// Byte size of the compressed block in the stream.
    pub compressed_length: u32,
}

impl PropertyArrayHeader {
    /// Reads a 12-byte array-property header at `*pos`, advancing it.
    pub fn read(buf: &[u8], pos: &mut usize) -> (r: Result<Self>)
        requires
            *old(pos) <= buf@.len(),
        ensures
            *old(pos) <= *final(pos) <= buf@.len(),
            match r {
                Ok(h) => {
                    &&& *old(pos) + 12 <= buf@.len()
                    &&& h.array_length == crate::bytes::le_u32(buf@, *old(pos) as int)
                    &&& h.encoding == crate::bytes::le_u32(buf@, *old(pos) + 4)
                    &&& h.compressed_length == crate::bytes::le_u32(buf@, *old(pos) + 8)
                    &&& *final(pos) == *old(pos) + 12
                },
                Err(e) => {
                    &&& e.kind is UnexpectedEof
                    &&& *old(pos) + 12 > buf@.len()
                    &&& e.pos == (if *old(pos) + 4 > buf@.len() {
                        *old(pos) as int
                    } else if *old(pos) + 8 > buf@.len() {
                        *old(pos) + 4
                    } else {
                        *old(pos) + 8
                    })
                    &&& *final(pos) == e.pos
                },
            },
    {
        let len = buf.len();
        if len - *pos < 4 {
            return Err(Error::new(*pos as u64, ErrorKind::UnexpectedEof));
        }
        let array_length = read_u32_le(buf, *pos);
        *pos = *pos + 4;
        if len - *pos < 4 {
            return Err(Error::new(*pos as u64, ErrorKind::UnexpectedEof));
        }
        let encoding = read_u32_le(buf, *pos);
        *pos = *pos + 4;
        if len - *pos < 4 {
            return Err(Error::new(*pos as u64, ErrorKind::UnexpectedEof));
        }
        let compressed_length = read_u32_le(buf, *pos);
        *pos = *pos + 4;
        Ok(PropertyArrayHeader { array_length, encoding, compressed_length })
    }
}

impl BinaryParser {
    /// Constructs a binary FBX parser for the given stream version.
    pub fn new(version: u32) -> (r: Self)
        ensures
            r.version == version,
            r.end_offset_stack@ == Seq::<u64>::empty(),
    {
        BinaryParser { version, end_offset_stack: Vec::new() }
    }

    /// Reads the elements of an array property from an uncompressed
    /// buffer, starting at `start`; `abs_pos` is the stream position an
    /// error must carry.  Returns the property and its byte size.
    pub fn read_property_value_array_from_plain_stream(
        raw: &[u8],
        start: usize,
        type_code: u8,
        num_elements: u32,
        abs_pos: u64,
    ) -> (r: Result<(OwnedProperty, u64)>)
        requires
            is_array_code(type_code),
            start <= raw@.len(),
        ensures
            match r {
                Ok(pv) => {
                    &&& start + num_elements * elem_size(type_code) <= raw@.len()
                    &&& pv.1 == num_elements * elem_size(type_code)
                    &&& pv.0@ == spec_prop_elems(type_code, raw@, start as int, num_elements as int)
                },
                Err(e) => {
                    &&& start + num_elements * elem_size(type_code) > raw@.len()
                    &&& e.pos == abs_pos
                    &&& e.kind is UnexpectedEof
                },
            },
    {
        let len = raw.len();
        let n = num_elements;
        if type_code == TC_ARR_F32 {
            let need: u64 = n as u64 * 4;
            if ((len - start) as u64) < need {
                return Err(Error::new(abs_pos, ErrorKind::UnexpectedEof));
            }
            let mut data: Vec<u32> = Vec::new();
            let mut k: u32 = 0;
            while k < n
                invariant
                    k <= n,
                    raw@.len() <= usize::MAX,
                    start + n * 4 <= raw@.len(),
                    data@.len() == k,
                    forall|j: int|
                        0 <= j < k ==> data@[j] == crate::bytes::le_u32(raw@, start + 4 * j),
                decreases n - k,
            {
                data.push(read_u32_le(raw, start + (k as usize) * 4));
                k = k + 1;
            }
            proof {
                assert(data@ =~= crate::wire::els_f32(raw@, start as int, n as int));
            }
            Ok((OwnedProperty::VecF32(data), n as u64 * 4))
        } else if type_code == TC_ARR_F64 {
            let need: u64 = n as u64 * 8;
            if ((len - start) as u64) < need {
                return Err(Error::new(abs_pos, ErrorKind::UnexpectedEof));
            }
            let mut data: Vec<u64> = Vec::new();
            let mut k: u32 = 0;
            while k < n
                invariant
                    k <= n,
                    raw@.len() <= usize::MAX,
                    start + n * 8 <= raw@.len(),
                    data@.len() == k,
                    forall|j: int|
                        0 <= j < k ==> data@[j] == crate::bytes::le_u64(raw@, start + 8 * j),
                decreases n - k,
            {
                data.push(read_u64_le(raw, start + (k as usize) * 8));
                k = k + 1;
            }
            proof {
                assert(data@ =~= crate::wire::els_f64(raw@, start as int, n as int));
            }
            Ok((OwnedProperty::VecF64(data), n as u64 * 8))
        } else if type_code == TC_ARR_I64 {
            let need: u64 = n as u64 * 8;
            if ((len - start) as u64) < need {
                return Err(Error::new(abs_pos, ErrorKind::UnexpectedEof));
            }
            let mut data: Vec<i64> = Vec::new();
            let mut k: u32 = 0;
            while k < n
                invariant
                    k <= n,
                    raw@.len() <= usize::MAX,
                    start + n * 8 <= raw@.len(),
                    data@.len() == k,
                    forall|j: int|
                        0 <= j < k ==> data@[j] == crate::bytes::le_i64(raw@, start + 8 * j),
                decreases n - k,
            {
                data.push(read_i64_le(raw, start + (k as usize) * 8));
                k = k + 1;
            }
            proof {
                assert(data@ =~= crate::wire::els_i64(raw@, start as int, n as int));
            }
            Ok((OwnedProperty::VecI64(data), n as u64 * 8))
        } else if type_code == TC_ARR_I32 {
            let need: u64 = n as u64 * 4;
            if ((len - start) as u64) < need {
                return Err(Error::new(abs_pos, ErrorKind::UnexpectedEof));
            }
            let mut data: Vec<i32> = Vec::new();
            let mut k: u32 = 0;
            while k < n
                invariant
                    k <= n,
                    raw@.len() <= usize::MAX,
                    start + n * 4 <= raw@.len(),
                    data@.len() == k,
                    forall|j: int|
                        0 <= j < k ==> data@[j] == crate::bytes::le_i32(raw@, start + 4 * j),
                decreases n - k,
            {
                data.push(read_i32_le(raw, start + (k as usize) * 4));
                k = k + 1;
            }
            proof {
                assert(data@ =~= crate::wire::els_i32(raw@, start as int, n as int));
            }
            Ok((OwnedProperty::VecI32(data), n as u64 * 4))
        } else {
            let need: u64 = n as u64;
            if ((len - start) as u64) < need {
                return Err(Error::new(abs_pos, ErrorKind::UnexpectedEof));
            }
            let mut data: Vec<bool> = Vec::new();
            let mut k: u32 = 0;
            while k < n
                invariant
                    k <= n,
                    raw@.len() <= usize::MAX,
                    start + n <= raw@.len(),
                    data@.len() == k,
                    forall|j: int| 0 <= j < k ==> data@[j] == (raw@[start + j] % 2 == 1),
                decreases n - k,
            {
                data.push(raw[start + k as usize] % 2 == 1);
                k = k + 1;
            }
            proof {
                assert(data@ =~= crate::wire::els_bool(raw@, start as int, n as int));
            }
            Ok((OwnedProperty::VecBool(data), n as u64))
        }
    }

    /// Reads an array property's body (after its header), inflating a
    /// compressed block when the header asks for it.
    fn read_property_value_array(
        buf: &[u8],
        common: &mut CommonState,
        type_code: u8,
        header: &PropertyArrayHeader,
    ) -> (r: Result<OwnedProperty>)
        requires
            is_array_code(type_code),
            old(common).pos <= buf@.len(),
        ensures
            final(common).done == old(common).done,
            old(common).pos <= final(common).pos <= buf@.len(),
            match spec_read_array(
                buf@,
                old(common).pos as int,
                type_code,
                header.array_length as int,
                header.encoding,
                header.compressed_length as int,
            ) {
                PropStep::PropDone(v, p) => (r matches Ok(prop) && prop@ == v
                    && final(common).pos == p),
                PropStep::PropFail(c, p) => (r matches Err(e) && class_of(e.kind) == c && e.pos
                    == p),
            },
    {
        let len = buf.len();
        if header.encoding == 0 {
            match BinaryParser::read_property_value_array_from_plain_stream(
                buf,
                common.pos,
                type_code,
                header.array_length,
                common.pos as u64,
            ) {
                Ok((val, byte_size)) => {
                    common.pos = common.pos + byte_size as usize;
                    Ok(val)
                },
                Err(e) => Err(e),
            }
        } else if header.encoding == 1 {
            let clen = header.compressed_length as usize;
            if len - common.pos < clen {
                return Err(Error::new(common.pos as u64, ErrorKind::UnexpectedEof));
            }
            let block = vstd::slice::slice_subrange(buf, common.pos, common.pos + clen);
            match zlib_decompress(block) {
                None => Err(
                    Error::new(
                        common.pos as u64,
                        ErrorKind::DataError("Compressed property array does not inflate".to_owned()),
                    ),
                ),
                Some(raw) => {
                    match BinaryParser::read_property_value_array_from_plain_stream(
                        raw.as_slice(),
                        0,
                        type_code,
                        header.array_length,
                        common.pos as u64,
                    ) {
                        Ok((val, _byte_size)) => {
                            common.pos = common.pos + clen;
                            Ok(val)
                        },
                        Err(e) => Err(e),
                    }
                },
            }
        } else {
            Err(
                Error::new(
                    common.pos as u64,
                    ErrorKind::UnexpectedValue("Unsupported property array encoding".to_owned()),
                ),
            )
        }
    }

    /// Reads one node property at the current position.
    fn read_property(buf: &[u8], common: &mut CommonState) -> (r: Result<OwnedProperty>)
        requires
            old(common).pos <= buf@.len(),
        ensures
            final(common).done == old(common).done,
            old(common).pos <= final(common).pos <= buf@.len(),
            match spec_read_prop(buf@, old(common).pos as int) {
                PropStep::PropDone(v, p) => (r matches Ok(prop) && prop@ == v
                    && final(common).pos == p),
                PropStep::PropFail(c, p) => (r matches Err(e) && class_of(e.kind) == c && e.pos
                    == p),
            },
    {
        let len = buf.len();
        if len - common.pos < 1 {
            return Err(Error::new(common.pos as u64, ErrorKind::UnexpectedEof));
        }
        let type_code: u8 = buf[common.pos];
        common.pos = common.pos + 1;
        if type_code > 0x7f {
            return Err(
                Error::new(
                    (common.pos - 1) as u64,
                    ErrorKind::DataError("Expected an ASCII property type code".to_owned()),
                ),
            );
        }
        if type_code == TC_BOOL {
            if len - common.pos < 1 {
                return Err(Error::new(common.pos as u64, ErrorKind::UnexpectedEof));
            }
            let val: u8 = buf[common.pos];
            common.pos = common.pos + 1;
            Ok(OwnedProperty::Bool(val % 2 == 1))
        } else if type_code == TC_I16 {
            if len - common.pos < 2 {
                return Err(Error::new(common.pos as u64, ErrorKind::UnexpectedEof));
            }
            let val = read_i16_le(buf, common.pos);
            common.pos = common.pos + 2;
            Ok(OwnedProperty::I16(val))
        } else if type_code == TC_I32 {
            if len - common.pos < 4 {
                return Err(Error::new(common.pos as u64, ErrorKind::UnexpectedEof));
            }
            let val = read_i32_le(buf, common.pos);
            common.pos = common.pos + 4;
            Ok(OwnedProperty::I32(val))
        } else if type_code == TC_I64 {
            if len - common.pos < 8 {
                return Err(Error::new(common.pos as u64, ErrorKind::UnexpectedEof));
            }
            let val = read_i64_le(buf, common.pos);
            common.pos = common.pos + 8;
            Ok(OwnedProperty::I64(val))
        } else if type_code == TC_F32 {
            if len - common.pos < 4 {
                return Err(Error::new(common.pos as u64, ErrorKind::UnexpectedEof));
            }
            let val = read_u32_le(buf, common.pos);
            common.pos = common.pos + 4;
            Ok(OwnedProperty::F32(val))
        } else if type_code == TC_F64 {
            if len - common.pos < 8 {
                return Err(Error::new(common.pos as u64, ErrorKind::UnexpectedEof));
            }
            let val = read_u64_le(buf, common.pos);
            common.pos = common.pos + 8;
            Ok(OwnedProperty::F64(val))
        } else if type_code == TC_STRING {
            if len - common.pos < 4 {
                return Err(Error::new(common.pos as u64, ErrorKind::UnexpectedEof));
            }
            let slen = read_u32_le(buf, common.pos) as usize;
            common.pos = common.pos + 4;
            if len - common.pos < slen {
                return Err(Error::new(common.pos as u64, ErrorKind::UnexpectedEof));
            }
            let bytes = read_bytes(buf, common.pos, slen);
            match string_from_utf8(bytes) {
                Some(s) => {
                    common.pos = common.pos + slen;
                    Ok(OwnedProperty::String(s))
                },
                None => Err(Error::new(common.pos as u64, ErrorKind::Utf8Error)),
            }
        } else if type_code == TC_BINARY {
            if len - common.pos < 4 {
                return Err(Error::new(common.pos as u64, ErrorKind::UnexpectedEof));
            }
            let blen = read_u32_le(buf, common.pos) as usize;
            common.pos = common.pos + 4;
            if len - common.pos < blen {
                return Err(Error::new(common.pos as u64, ErrorKind::UnexpectedEof));
            }
            let bytes = read_bytes(buf, common.pos, blen);
            common.pos = common.pos + blen;
            Ok(OwnedProperty::Binary(bytes))
        } else if type_code == TC_ARR_F32 || type_code == TC_ARR_F64 || type_code == TC_ARR_I64
            || type_code == TC_ARR_I32 || type_code == TC_ARR_BOOL {
            match PropertyArrayHeader::read(buf, &mut common.pos) {
                Ok(header) => BinaryParser::read_property_value_array(
                    buf,
                    common,
                    type_code,
                    &header,
                ),
                Err(e) => {
                    common.pos = e.pos as usize;
                    Err(e)
                },
            }
        } else {
            Err(
                Error::new(
                    common.pos as u64,
                    ErrorKind::UnexpectedValue(
                        "Unsupported type code appears in node property".to_owned(),
                    ),
                ),
            )
        }
    }

    /// Reads `n` properties in stream order at the current position.
    fn read_properties(buf: &[u8], common: &mut CommonState, n: u64) -> (r: Result<
        Vec<OwnedProperty>,
    >)
        requires
            old(common).pos <= buf@.len(),
        ensures
            final(common).done == old(common).done,
            old(common).pos <= final(common).pos <= buf@.len(),
            match spec_read_props(buf@, old(common).pos as int, n as nat) {
                PropsStep::PropsDone(ps, p) => (r matches Ok(props) && props_view(props@) == ps
                    && final(common).pos == p),
                PropsStep::PropsFail(c, p) => (r matches Err(e) && class_of(e.kind) == c && e.pos
                    == p),
            },
    {
        let ghost base = old(common).pos as int;
        let mut properties: Vec<OwnedProperty> = Vec::new();
        let mut k: u64 = 0;
        proof {
            crate::wire::lemma_props_prepend_empty(
                spec_read_props(buf@, base, n as nat),
            );
            assert(props_view(properties@) =~= Seq::<crate::common::PropData>::empty());
        }
        while k < n
            invariant
                k <= n,
                old(common).pos <= common.pos <= buf@.len(),
                common.done == old(common).done,
                properties@.len() == k,
                spec_read_props(buf@, base, n as nat) == crate::wire::props_prepend(
                    props_view(properties@),
                    spec_read_props(buf@, common.pos as int, (n - k) as nat),
                ),
                base == old(common).pos as int,
            decreases n - k,
        {
            let ghost pos_before = common.pos as int;
            let ghost rem = (n - k) as nat;
            proof {
                crate::wire::lemma_props_step(buf@, pos_before, rem);
            }
            let prop = match BinaryParser::read_property(buf, common) {
                Ok(p) => p,
                Err(e) => {
                    return Err(e);
                },
            };
            let ghost old_props = properties@;
            properties.push(prop);
            k = k + 1;
            proof {
                assert(props_view(properties@) =~= props_view(old_props).push(prop@));
                crate::wire::lemma_props_prepend_push(
                    props_view(old_props),
                    prop@,
                    spec_read_props(buf@, common.pos as int, (n - k) as nat),
                );
            }
        }
        proof {
            assert(spec_read_props(buf@, common.pos as int, 0nat) == PropsStep::PropsDone(
                Seq::<crate::common::PropData>::empty(),
                common.pos as int,
            ));
            assert(props_view(properties@) + Seq::<crate::common::PropData>::empty()
                =~= props_view(properties@));
        }
        Ok(properties)
    }

    /// One pull: the next event of the binary stream.
    pub fn next(&mut self, buf: &[u8], common: &mut CommonState) -> (r: Result<FbxEvent>)
        requires
            old(common).pos <= buf@.len(),
        ensures
            final(common).done == old(common).done,
            old(common).pos <= final(common).pos <= buf@.len(),
            final(self).version == old(self).version,
            match spec_binary_next(
                buf@,
                old(common).pos as int,
                old(self).version,
                old(self).end_offset_stack@,
            ) {
                NodeStep::NodeEvent(ev, p, st) => (r matches Ok(e) && e@ == ev && final(common).pos == p
                    && final(self).end_offset_stack@ == st),
                NodeStep::NodeFail(c, p) => (r matches Err(e) && class_of(e.kind) == c && e.pos
                    == p),
            },
    {
        // A previously read node may end exactly here.
        if self.end_offset_stack.len() > 0 {
            let top = self.end_offset_stack[self.end_offset_stack.len() - 1];
            if top == common.pos as u64 {
                self.end_offset_stack.pop();
                return Ok(FbxEvent::EndNode);
            }
        }
        let header = match NodeRecordHeader::read(buf, &mut common.pos, self.version) {
            Ok(h) => h,
            Err(e) => {
                return Err(e);
            },
        };
        if header.is_null_record() {
            if self.end_offset_stack.len() > 0 {
                let expected = self.end_offset_stack.pop().unwrap();
                if expected == common.pos as u64 {
                    return Ok(FbxEvent::EndNode);
                } else {
                    return Err(
                        Error::new(
                            common.pos as u64,
                            ErrorKind::DataError(
                                "Node does not end at expected position".to_owned(),
                            ),
                        ),
                    );
                }
            } else {
                // The outer null record terminates the implicit root; the
                // footer that follows is not parsed.
                return Ok(FbxEvent::EndFbx);
            }
        }
        // Start of a node.
        let len = buf.len();
        let name_len = header.name_len as usize;
        if len - common.pos < name_len {
            return Err(Error::new(common.pos as u64, ErrorKind::UnexpectedEof));
        }
        let name_bytes = read_bytes(buf, common.pos, name_len);
        let name = match string_from_utf8(name_bytes) {
            Some(s) => s,
            None => {
                return Err(Error::new(common.pos as u64, ErrorKind::Utf8Error));
            },
        };
        common.pos = common.pos + name_len;
        self.end_offset_stack.push(header.end_offset);
        let properties = match BinaryParser::read_properties(buf, common, header.num_properties) {
            Ok(ps) => ps,
            Err(e) => {
                return Err(e);
            },
        };
        Ok(FbxEvent::StartNode { name, properties })
    }
}

} // verus!
