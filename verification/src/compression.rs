//! Lossless compression of the packed raster, done by the `lzss` crate with
//! a window of 1024 bytes and matches of up to 17 bytes.

use lzss::{ResultLzssErrorVoidExt, SliceReader, VecWriter};
use vstd::prelude::*;

verus! {

/// What `lzss` makes of `input` when it compresses it.
pub uninterp spec fn lzss_compressed(input: Seq<u8>) -> Seq<u8>;

/// What `lzss` makes of `input` when it decompresses it.
pub uninterp spec fn lzss_decompressed(input: Seq<u8>) -> Seq<u8>;

/// `lzss::Lzss::<10, 4, 0x20, 1024, 2048>::compress_stack`, reading from a
/// slice and writing to a vector, neither of which can fail.
///
/// The output is a function of the input alone. The crate describes itself
/// as lossless: decompressing the output with the same parameters gives the
/// input back.
#[verifier::external_body]
fn lzss_compress(input: &[u8]) -> (output: Vec<u8>)
    ensures
        output@ == lzss_compressed(input@),
        lzss_decompressed(output@) == input@,
{
    lzss::Lzss::<10, 4, 0x20, 1024, 2048>::compress_stack(
        SliceReader::new(input),
        VecWriter::with_capacity(input.len()),
    ).void_unwrap()
}

/// `lzss::Lzss::<10, 4, 0x20, 1024, 2048>::decompress_stack`, reading from
/// a slice and writing to a vector, neither of which can fail.
///
/// The format has no header and no checksum, so every input decompresses to
/// something; the output is a function of the input alone.
#[verifier::external_body]
fn lzss_decompress(input: &[u8]) -> (output: Vec<u8>)
    ensures
        output@ == lzss_decompressed(input@),
{
    lzss::Lzss::<10, 4, 0x20, 1024, 2048>::decompress_stack(
        SliceReader::new(input),
        VecWriter::with_capacity(input.len()),
    ).void_unwrap()
}

/// Replaces the bytes by their compressed form. Decompressing that form
/// gives the bytes back.
pub fn compress(bytes: &mut Vec<u8>)
    ensures
        final(bytes)@ == lzss_compressed(old(bytes)@),
        lzss_decompressed(final(bytes)@) == old(bytes)@,
{
    let output = lzss_compress(bytes.as_slice());
    *bytes = output;
}

/// Replaces the bytes by what they decompress to.
pub fn decompress(bytes: &mut Vec<u8>)
    ensures
        final(bytes)@ == lzss_decompressed(old(bytes)@),
{
    let output = lzss_decompress(bytes.as_slice());
    *bytes = output;
}

} // verus!
