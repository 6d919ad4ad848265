//! Body compression: raw Snappy blocks, or LZ4 blocks prefixed with four
//! big-endian bytes giving the uncompressed length.
//!
//! The compressors themselves are outside code; what each call returns is
//! named by an uninterpreted function, and the one fact the codec needs —
//! that decompressing a compressed body gives the body back — is stated where
//! the compressor is called.

use vstd::prelude::*;

verus! {

/// The session-wide compression choice for body payloads.
#[derive(Clone, Copy, Debug, PartialEq, Eq, Structural)]
pub enum Compression {
    Uncompressed,
    Snappy,
    Lz4,
}

/// What `snap`'s raw encoder returns for a given input: the Snappy block
/// encoding, a function of the input bytes alone.
pub uninterp spec fn snappy_compressed(b: Seq<u8>) -> Seq<u8>;

/// What `snap`'s raw decoder returns for a given input: the decoded bytes,
/// or nothing when the input is not a well-formed Snappy block.
pub uninterp spec fn snappy_decompressed(b: Seq<u8>) -> Option<Seq<u8>>;

/// What `lz4_flex`'s block compressor returns for a given input: the LZ4
/// block encoding, a function of the input bytes alone.
pub uninterp spec fn lz4_compressed(b: Seq<u8>) -> Seq<u8>;

/// What `lz4_flex`'s block decompressor returns for a given input and
/// output-size bound: the decoded bytes, or nothing when the input is not a
/// well-formed LZ4 block or decodes to more than `size_hint` bytes.
pub uninterp spec fn lz4_decompressed(b: Seq<u8>, size_hint: nat) -> Option<Seq<u8>>;

/// Relies on `snap::raw::Encoder::compress_vec`: it encodes the whole input
/// as one raw Snappy block, which `snap::raw::Decoder::decompress_vec`
/// decodes back to the input. It refuses exactly the inputs whose
/// worst-case compressed size, 32 + n + n/6, overflows the format's 32-bit
/// bound; its buffer is allocated at that size, so no other failure exists.
#[verifier::external_body]
pub(crate) fn snappy_compress(data: &Vec<u8>) -> (r: Option<Vec<u8>>)
    ensures
        r is Some <==> 32 + data@.len() + data@.len() / 6 <= 0xFFFF_FFFF,
        r is Some ==> r->0@ == snappy_compressed(data@) && snappy_decompressed(
            snappy_compressed(data@),
        ) == Some(data@),
{
    snap::raw::Encoder::new().compress_vec(data.as_slice()).ok()
}

/// Relies on `snap::raw::Decoder::decompress_vec`: it decodes one raw Snappy
/// block, failing exactly on malformed input.
#[verifier::external_body]
pub(crate) fn snappy_decompress(data: &Vec<u8>) -> (r: Option<Vec<u8>>)
    ensures
        r is Some <==> snappy_decompressed(data@) is Some,
        r is Some ==> Some(r->0@) == snappy_decompressed(data@),
{
    snap::raw::Decoder::new().decompress_vec(data.as_slice()).ok()
}

/// Relies on `lz4_flex::block::compress`: it encodes the whole input as one
/// LZ4 block, which `lz4_flex::block::decompress` — given the input's exact
/// length as its output bound — decodes back to the input.
#[verifier::external_body]
pub(crate) fn lz4_compress(data: &Vec<u8>) -> (r: Vec<u8>)
    ensures
        r@ == lz4_compressed(data@) && lz4_decompressed(r@, data@.len()) == Some(data@),
{
    lz4_flex::block::compress(data.as_slice())
}

/// Relies on `lz4_flex::block::decompress`: it decodes one LZ4 block into a
/// buffer of `size_hint` bytes, failing on malformed input and on output
/// that outgrows that bound.
#[verifier::external_body]
pub(crate) fn lz4_decompress(data: &Vec<u8>, size_hint: usize) -> (r: Option<Vec<u8>>)
    ensures
        r is Some <==> lz4_decompressed(data@, size_hint as nat) is Some,
        r is Some ==> Some(r->0@) == lz4_decompressed(data@, size_hint as nat),
{
    lz4_flex::block::decompress(data.as_slice(), size_hint).ok()
}

} // verus!
