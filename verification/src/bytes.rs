//! Little-endian integer codecs over byte buffers.
//!
//! The binary FBX format stores every multi-byte integer little-endian.
//! These helpers read one value at a given offset of a byte buffer; the
//! spec-level readings (`le_u16` and friends) are what the parser and
//! emitter contracts are phrased in.

use vstd::prelude::*;
use vstd::bytes::{
    spec_u16_from_le_bytes, spec_u32_from_le_bytes, spec_u64_from_le_bytes, u16_from_le_bytes,
    u32_from_le_bytes, u64_from_le_bytes,
};
use vstd::slice::slice_subrange;

verus! {

/// The `u16` stored little-endian at `b[pos..pos + 2]`.
pub open spec fn le_u16(b: Seq<u8>, pos: int) -> u16 {
    spec_u16_from_le_bytes(b.subrange(pos, pos + 2))
}

/// The `u32` stored little-endian at `b[pos..pos + 4]`.
pub open spec fn le_u32(b: Seq<u8>, pos: int) -> u32 {
    spec_u32_from_le_bytes(b.subrange(pos, pos + 4))
}

/// The `u64` stored little-endian at `b[pos..pos + 8]`.
pub open spec fn le_u64(b: Seq<u8>, pos: int) -> u64 {
    spec_u64_from_le_bytes(b.subrange(pos, pos + 8))
}

/// The `i16` stored little-endian (two's complement) at `b[pos..pos + 2]`.
pub open spec fn le_i16(b: Seq<u8>, pos: int) -> i16 {
    le_u16(b, pos) as i16
}

/// The `i32` stored little-endian (two's complement) at `b[pos..pos + 4]`.
pub open spec fn le_i32(b: Seq<u8>, pos: int) -> i32 {
    le_u32(b, pos) as i32
}

/// The `i64` stored little-endian (two's complement) at `b[pos..pos + 8]`.
pub open spec fn le_i64(b: Seq<u8>, pos: int) -> i64 {
    le_u64(b, pos) as i64
}

/// Reads the little-endian `u16` at offset `pos`.
pub fn read_u16_le(buf: &[u8], pos: usize) -> (r: u16)
    requires
        pos + 2 <= buf@.len(),
    ensures
        r == le_u16(buf@, pos as int),
{
    let len: usize = buf.len();
    proof {
        assert(pos + 2 <= len);
    }
    u16_from_le_bytes(slice_subrange(buf, pos, pos + 2))
}

/// Reads the little-endian `u32` at offset `pos`.
pub fn read_u32_le(buf: &[u8], pos: usize) -> (r: u32)
    requires
        pos + 4 <= buf@.len(),
    ensures
        r == le_u32(buf@, pos as int),
{
    let len: usize = buf.len();
    proof {
        assert(pos + 4 <= len);
    }
    u32_from_le_bytes(slice_subrange(buf, pos, pos + 4))
}

/// Reads the little-endian `u64` at offset `pos`.
pub fn read_u64_le(buf: &[u8], pos: usize) -> (r: u64)
    requires
        pos + 8 <= buf@.len(),
    ensures
        r == le_u64(buf@, pos as int),
{
    let len: usize = buf.len();
    proof {
        assert(pos + 8 <= len);
    }
    u64_from_le_bytes(slice_subrange(buf, pos, pos + 8))
}

/// Reads the little-endian `i16` at offset `pos`.
pub fn read_i16_le(buf: &[u8], pos: usize) -> (r: i16)
    requires
        pos + 2 <= buf@.len(),
    ensures
        r == le_i16(buf@, pos as int),
{
    read_u16_le(buf, pos) as i16
}

/// Reads the little-endian `i32` at offset `pos`.
pub fn read_i32_le(buf: &[u8], pos: usize) -> (r: i32)
    requires
        pos + 4 <= buf@.len(),
    ensures
        r == le_i32(buf@, pos as int),
{
    read_u32_le(buf, pos) as i32
}

/// Reads the little-endian `i64` at offset `pos`.
pub fn read_i64_le(buf: &[u8], pos: usize) -> (r: i64)
    requires
        pos + 8 <= buf@.len(),
    ensures
        r == le_i64(buf@, pos as int),
{
    read_u64_le(buf, pos) as i64
}

/// Copies `buf[pos..pos + n]` into a fresh vector.
pub fn read_bytes(buf: &[u8], pos: usize, n: usize) -> (r: Vec<u8>)
    requires
        pos + n <= buf@.len(),
    ensures
        r@ == buf@.subrange(pos as int, pos + n),
{
    let len: usize = buf.len();
    proof {
        assert(pos + n <= len);
    }
    vstd::slice::slice_to_vec(slice_subrange(buf, pos, pos + n))
}

} // verus!
