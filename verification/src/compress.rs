//! Compression, as the `flate2` crate does it: the level data sent to clients
//! and the world file on disk are gzip streams; a client that announced the
//! FastMap extension gets its level data as a raw DEFLATE stream.

use flate2::read::GzDecoder;
use flate2::write::{DeflateEncoder, GzEncoder};
use flate2::Compression;
use std::io::{Read, Write};
use vstd::prelude::*;

verus! {

/// The gzip stream that `flate2::write::GzEncoder` at the default level makes
/// of `data`.
pub uninterp spec fn gzip_of(data: Seq<u8>) -> Seq<u8>;

/// What `flate2::read::GzDecoder` reads from `data`: the decompressed bytes,
/// or nothing when `data` is not a complete gzip stream.
pub uninterp spec fn gunzip_of(data: Seq<u8>) -> Option<Seq<u8>>;

/// The raw DEFLATE stream (no gzip header or trailer) that
/// `flate2::write::DeflateEncoder` at the default level makes of `data`.
pub uninterp spec fn deflate_of(data: Seq<u8>) -> Seq<u8>;

/// `flate2::write::DeflateEncoder::new(Vec::new(), Compression::default())`,
/// fed all of `data` and finished: the raw DEFLATE stream named
/// `deflate_of(data)`.  The encoder writes into a `Vec`, which cannot fail.
#[verifier::external_body]
pub(crate) fn deflate(data: &[u8]) -> (out: Vec<u8>)
    ensures
        out@ == deflate_of(data@),
{
    let mut encoder = DeflateEncoder::new(Vec::new(), Compression::default());
    let _ = encoder.write_all(data);
    match encoder.finish() {
        Ok(out) => out,
        Err(_) => Vec::new(),
    }
}

/// `flate2::write::GzEncoder::new(Vec::new(), Compression::default())`, fed
/// all of `data` and finished.  The result is named `gzip_of(data)`, and, gzip
/// being lossless, `flate2::read::GzDecoder` gives `data` back from it.  The
/// encoder writes into a `Vec`, which cannot fail.
#[verifier::external_body]
pub(crate) fn gzip(data: &[u8]) -> (out: Vec<u8>)
    ensures
        out@ == gzip_of(data@),
        gunzip_of(out@) == Some(data@),
{
    let mut encoder = GzEncoder::new(Vec::new(), Compression::default());
    let _ = encoder.write_all(data);
    match encoder.finish() {
        Ok(out) => out,
        Err(_) => Vec::new(),
    }
}

/// `flate2::read::GzDecoder` over `data`, read to the end: `None` where the
/// decoder reports an error.
#[verifier::external_body]
pub(crate) fn gunzip(data: &[u8]) -> (out: Option<Vec<u8>>)
    ensures
        match out {
            Some(v) => gunzip_of(data@) == Some(v@),
            None => gunzip_of(data@) is None,
        },
{
    let mut decoder = GzDecoder::new(data);
    let mut out = Vec::new();
    match decoder.read_to_end(&mut out) {
        Ok(_) => Some(out),
        Err(_) => None,
    }
}

} // verus!
