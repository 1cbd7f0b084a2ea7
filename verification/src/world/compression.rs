//! Compression of stored and sent data, done by the `flate2` crate.

use vstd::prelude::*;
use std::io::{Read, Write};

verus! {

/// What flate2's zlib encoder at the default level makes of some bytes.
pub uninterp spec fn zlib_compressed(data: Seq<u8>) -> Seq<u8>;

/// What flate2's zlib decoder makes of some bytes: the decompressed bytes,
/// or `None` when they are not a zlib stream.
pub uninterp spec fn zlib_decompressed(data: Seq<u8>) -> Option<Seq<u8>>;

/// What flate2's raw deflate encoder at the default level makes of some
/// bytes.
pub uninterp spec fn deflate_compressed(data: Seq<u8>) -> Seq<u8>;

/// What flate2's gzip encoder at the default level makes of some bytes.
pub uninterp spec fn gzip_compressed(data: Seq<u8>) -> Seq<u8>;

/// What flate2's gzip decoder makes of some bytes: the decompressed bytes,
/// or `None` when they are not a gzip stream.
pub uninterp spec fn gzip_decompressed(data: Seq<u8>) -> Option<Seq<u8>>;


/// Compresses bytes into a zlib stream.
///
/// Calls `flate2::write::ZlibEncoder` with `Compression::default()` over a
/// `Vec`, which cannot fail to be written. The result is named; the one fact
/// claimed of it is that the zlib decoder gives the input back.
#[verifier::external_body]
pub(crate) fn zlib_compress(data: &[u8]) -> (r: Vec<u8>)
    ensures
        r@ == zlib_compressed(data@),
        zlib_decompressed(r@) == Some(data@),
{
    let mut encoder = flate2::write::ZlibEncoder::new(Vec::new(), flate2::Compression::default());
    encoder.write_all(data).unwrap();
    encoder.finish().unwrap()
}

/// Decompresses a zlib stream.
///
/// Calls `flate2::read::ZlibDecoder` and `read_to_end`; an error of the
/// decoder gives `None`. The result is named.
#[verifier::external_body]
pub(crate) fn zlib_decompress(data: &[u8]) -> (r: Option<Vec<u8>>)
    ensures
        r matches Some(v) ==> zlib_decompressed(data@) == Some(v@),
        r is None ==> zlib_decompressed(data@) is None,
{
    let mut decoder = flate2::read::ZlibDecoder::new(data);
    let mut out = Vec::new();
    match decoder.read_to_end(&mut out) {
        Ok(_) => Some(out),
        Err(_) => None,
    }
}

/// Compresses bytes into a raw deflate stream.
///
/// Calls `flate2::write::DeflateEncoder` with `Compression::default()` over
/// a `Vec`, which cannot fail to be written. The result is named.
#[verifier::external_body]
pub(crate) fn deflate_compress(data: &[u8]) -> (r: Vec<u8>)
    ensures
        r@ == deflate_compressed(data@),
{
    let mut encoder = flate2::write::DeflateEncoder::new(Vec::new(), flate2::Compression::default());
    encoder.write_all(data).unwrap();
    encoder.finish().unwrap()
}

/// Compresses bytes into a gzip stream.
///
/// Calls `flate2::write::GzEncoder` with `Compression::default()` over a
/// `Vec`, which cannot fail to be written. The result is named; the one fact
/// claimed of it is that the gzip decoder gives the input back.
#[verifier::external_body]
pub(crate) fn gzip_compress(data: &[u8]) -> (r: Vec<u8>)
    ensures
        r@ == gzip_compressed(data@),
        gzip_decompressed(r@) == Some(data@),
{
    let mut encoder = flate2::write::GzEncoder::new(Vec::new(), flate2::Compression::default());
    encoder.write_all(data).unwrap();
    encoder.finish().unwrap()
}

/// Decompresses a gzip stream.
///
/// Calls `flate2::read::GzDecoder` and `read_to_end`; an error of the
/// decoder gives `None`. The result is named.
#[verifier::external_body]
pub(crate) fn gzip_decompress(data: &[u8]) -> (r: Option<Vec<u8>>)
    ensures
        r matches Some(v) ==> gzip_decompressed(data@) == Some(v@),
        r is None ==> gzip_decompressed(data@) is None,
{
    let mut decoder = flate2::read::GzDecoder::new(data);
    let mut out = Vec::new();
    match decoder.read_to_end(&mut out) {
        Ok(_) => Some(out),
        Err(_) => None,
    }
}

} // verus!
