//! The compression transport: the body of a stream passes through one of
//! the fixed codecs of the flate2 crate, chosen by the header.
//!
//! What each codec produces is named, not restated: `deflate_of(d, l)` is
//! whatever flate2's deflate encoder emits for input `d` at effort level
//! `l`, a function of the two alone.  The decompressors are trusted to
//! invert them, which is what lossless compression promises.
//!
//! flate2's default backend supports effort levels 0 through 10 and holds
//! a debug assertion to that effect, so the compressing wrappers require
//! the bound; the named streams are the backend's release output, under
//! which any higher level denotes the same stream as 10.

use vstd::prelude::*;
use std::io::Read;
use std::io::Write;
use crate::Compression;
use crate::Error;

verus! {

/// The deflate stream flate2 produces for this input at this level.
pub uninterp spec fn deflate_of(data: Seq<u8>, level: u32) -> Seq<u8>;

/// The gzip stream flate2 produces for this input at this level.
pub uninterp spec fn gzip_of(data: Seq<u8>, level: u32) -> Seq<u8>;

/// The zlib stream flate2 produces for this input at this level.
pub uninterp spec fn zlib_of(data: Seq<u8>, level: u32) -> Seq<u8>;

/// The body bytes of a stream: the payload as the chosen transport carries it.
pub open spec fn spec_body_transport(c: Compression, body: Seq<u8>) -> Seq<u8> {
    match c {
        Compression::Plain => body,
        Compression::Deflate(l) => deflate_of(body, l),
        Compression::Gzip(l) => gzip_of(body, l),
        Compression::Zlib(l) => zlib_of(body, l),
    }
}

/// Whether a setting's effort level is one the compressing backend
/// accepts: at most 10 for every compressed kind, anything for `Plain`.
pub open spec fn spec_level_supported(c: Compression) -> bool {
    match c {
        Compression::Plain => true,
        Compression::Deflate(l) => l <= 10,
        Compression::Gzip(l) => l <= 10,
        Compression::Zlib(l) => l <= 10,
    }
}

/// Relies on flate2's `write::DeflateEncoder`: for levels up to 10 the
/// stream it emits is a function of the input bytes and the level alone,
/// and writing into a `Vec` sink cannot fail, so `finish` returns the
/// complete stream.  Higher levels are excluded: the backend asserts
/// `level <= 10` in debug builds.
#[verifier::external_body]
pub(crate) fn deflate_compress(data: &Vec<u8>, level: u32) -> (r: Vec<u8>)
    requires
        level <= 10,
    ensures
        r@ == deflate_of(data@, level),
{
    let mut enc = flate2::write::DeflateEncoder::new(
        Vec::new(),
        flate2::Compression::new(level),
    );
    let _ = enc.write_all(data.as_slice());
    enc.finish().expect("writing into a Vec cannot fail")
}

/// Relies on flate2's `write::GzEncoder`: with the default header (zero
/// mtime, fixed OS byte) the stream is a function of input and level
/// alone for levels up to 10, and a `Vec` sink cannot fail.  Higher
/// levels are excluded: the backend asserts `level <= 10` in debug
/// builds.
#[verifier::external_body]
pub(crate) fn gzip_compress(data: &Vec<u8>, level: u32) -> (r: Vec<u8>)
    requires
        level <= 10,
    ensures
        r@ == gzip_of(data@, level),
{
    let mut enc = flate2::write::GzEncoder::new(Vec::new(), flate2::Compression::new(level));
    let _ = enc.write_all(data.as_slice());
    enc.finish().expect("writing into a Vec cannot fail")
}

/// Relies on flate2's `write::ZlibEncoder`: for levels up to 10 the
/// stream it emits is a function of the input bytes and the level alone,
/// and a `Vec` sink cannot fail.  Higher levels are excluded: the backend
/// asserts `level <= 10` in debug builds.
#[verifier::external_body]
pub(crate) fn zlib_compress(data: &Vec<u8>, level: u32) -> (r: Vec<u8>)
    requires
        level <= 10,
    ensures
        r@ == zlib_of(data@, level),
{
    let mut enc = flate2::write::ZlibEncoder::new(Vec::new(), flate2::Compression::new(level));
    let _ = enc.write_all(data.as_slice());
    enc.finish().expect("writing into a Vec cannot fail")
}

/// Relies on flate2's `read::DeflateDecoder`: deflate is lossless, so a
/// stream `deflate_of(d, l)` reads back to exactly `d`.
#[verifier::external_body]
pub(crate) fn deflate_decompress(data: &Vec<u8>) -> (r: Result<Vec<u8>, Error>)
    ensures
        r matches Ok(out) ==> forall|d: Seq<u8>, level: u32|
            data@ == deflate_of(d, level) ==> out@ == d,
        r is Err ==> forall|d: Seq<u8>, level: u32| data@ != deflate_of(d, level),
{
    let mut out = Vec::new();
    match flate2::read::DeflateDecoder::new(data.as_slice()).read_to_end(&mut out) {
        Ok(_) => Ok(out),
        Err(e) => Err(Error::IoError(format!("{}", e))),
    }
}

/// Relies on flate2's `read::GzDecoder`: gzip is lossless, so a stream
/// `gzip_of(d, l)` reads back to exactly `d`.
#[verifier::external_body]
pub(crate) fn gzip_decompress(data: &Vec<u8>) -> (r: Result<Vec<u8>, Error>)
    ensures
        r matches Ok(out) ==> forall|d: Seq<u8>, level: u32|
            data@ == gzip_of(d, level) ==> out@ == d,
        r is Err ==> forall|d: Seq<u8>, level: u32| data@ != gzip_of(d, level),
{
    let mut out = Vec::new();
    match flate2::read::GzDecoder::new(data.as_slice()).read_to_end(&mut out) {
        Ok(_) => Ok(out),
        Err(e) => Err(Error::IoError(format!("{}", e))),
    }
}

/// Relies on flate2's `read::ZlibDecoder`: zlib is lossless, so a stream
/// `zlib_of(d, l)` reads back to exactly `d`.
#[verifier::external_body]
pub(crate) fn zlib_decompress(data: &Vec<u8>) -> (r: Result<Vec<u8>, Error>)
    ensures
        r matches Ok(out) ==> forall|d: Seq<u8>, level: u32|
            data@ == zlib_of(d, level) ==> out@ == d,
        r is Err ==> forall|d: Seq<u8>, level: u32| data@ != zlib_of(d, level),
{
    let mut out = Vec::new();
    match flate2::read::ZlibDecoder::new(data.as_slice()).read_to_end(&mut out) {
        Ok(_) => Ok(out),
        Err(e) => Err(Error::IoError(format!("{}", e))),
    }
}

} // verus!
