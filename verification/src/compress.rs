//! Zlib compression and decompression of property-array payloads.

use vstd::prelude::*;

use std::io::Read;
use std::io::Write;

verus! {

/// What the zlib encoder (default compression level) produces for the
/// given bytes.
pub uninterp spec fn deflate_of(data: Seq<u8>) -> Seq<u8>;

/// What the zlib decoder yields for the given bytes: the decompressed
/// data, or nothing when they are not a well-formed zlib stream.
pub uninterp spec fn inflate_of(data: Seq<u8>) -> Option<Seq<u8>>;

/// Relies on `flate2::write::ZlibEncoder` at the default level: the output
/// is a function of the input bytes alone, and decoding it gives the input
/// back.  Writing into a vector cannot fail.
#[verifier::external_body]
pub(crate) fn zlib_compress(data: &[u8]) -> (r: Vec<u8>)
    ensures
        r@ == deflate_of(data@),
        inflate_of(r@) == Some(data@),
{
    let mut enc = flate2::write::ZlibEncoder::new(Vec::new(), flate2::Compression::default());
    enc.write_all(data).expect("writing to a vector cannot fail");
    enc.finish().expect("writing to a vector cannot fail")
}

/// Relies on `flate2::read::ZlibDecoder`: whether decoding succeeds, and
/// with which bytes, is a function of the input bytes alone.
#[verifier::external_body]
pub(crate) fn zlib_decompress(data: &[u8]) -> (r: Option<Vec<u8>>)
    ensures
        match r {
            Some(v) => inflate_of(data@) == Some(v@),
            None => inflate_of(data@) is None,
        },
{
    let mut out = Vec::new();
    let mut dec = flate2::read::ZlibDecoder::new(data);
    match dec.read_to_end(&mut out) {
        Ok(_) => Some(out),
        Err(_) => None,
    }
}

} // verus!
