//! Content encodings: which whole-buffer decompression a `CONTENT-ENCODING` value
//! selects, and the decompression itself, which the `flate2` crate does.

use crate::parse::{Error, Failure, Feature};
use crate::text::str_eq;
use flate2::bufread::{DeflateDecoder, GzDecoder, ZlibDecoder};
use std::io::Read;
use vstd::prelude::*;

verus! {

/// What `flate2::bufread::GzDecoder` reads to the end from a buffer: the content of
/// its first gzip member, or nothing where the buffer does not hold one.
pub uninterp spec fn gzip_decoded(data: Seq<u8>) -> Option<Seq<u8>>;

/// What `flate2::bufread::DeflateDecoder` reads to the end from a buffer: the content
/// of a raw deflate stream, or nothing where the buffer does not hold one.
pub uninterp spec fn deflate_decoded(data: Seq<u8>) -> Option<Seq<u8>>;

/// What `flate2::bufread::ZlibDecoder` reads to the end from a buffer: the content of
/// a zlib stream, or nothing where the buffer does not hold one.
pub uninterp spec fn zlib_decoded(data: Seq<u8>) -> Option<Seq<u8>>;

/// `GzDecoder::new` over the buffer, read to the end: the output is a function of the
/// buffer alone, and a read that fails gives nothing.
#[verifier::external_body]
fn gzip_decode(data: &[u8]) -> (r: Option<Vec<u8>>)
    ensures
        r.deep_view() == gzip_decoded(data@),
{
    let mut out = Vec::new();
    match GzDecoder::new(data).read_to_end(&mut out) {
        Ok(_) => Some(out),
        Err(_) => None,
    }
}

/// `DeflateDecoder::new` over the buffer, read to the end: the output is a function
/// of the buffer alone, and a read that fails gives nothing.
#[verifier::external_body]
fn deflate_decode(data: &[u8]) -> (r: Option<Vec<u8>>)
    ensures
        r.deep_view() == deflate_decoded(data@),
{
    let mut out = Vec::new();
    match DeflateDecoder::new(data).read_to_end(&mut out) {
        Ok(_) => Some(out),
        Err(_) => None,
    }
}

/// `ZlibDecoder::new` over the buffer, read to the end: the output is a function of
/// the buffer alone, and a read that fails gives nothing.
#[verifier::external_body]
fn zlib_decode(data: &[u8]) -> (r: Option<Vec<u8>>)
    ensures
        r.deep_view() == zlib_decoded(data@),
{
    let mut out = Vec::new();
    match ZlibDecoder::new(data).read_to_end(&mut out) {
        Ok(_) => Some(out),
        Err(_) => None,
    }
}

/// The content encodings that can be decoded.
#[derive(Debug, Clone, Copy, PartialEq, Eq, Structural)]
pub enum Encoding {
    Gzip,
    Deflate,
    Zlib,
}

impl Encoding {
    /// The value of `CONTENT-ENCODING` that selects the encoding.
    pub open spec fn name(self) -> Seq<char> {
        match self {
            Encoding::Gzip => "GZIP"@,
            Encoding::Deflate => "DEFLATE"@,
            Encoding::Zlib => "ZLIB"@,
        }
    }

    /// The encoding that a header value selects: one of the three names, no encoding
    /// for an empty value, and an unsupported feature for anything else.
    pub open spec fn spec_from_value(v: Seq<char>) -> Result<Option<Encoding>, Failure> {
        if v == Encoding::Gzip.name() {
            Ok(Some(Encoding::Gzip))
        } else if v == Encoding::Deflate.name() {
            Ok(Some(Encoding::Deflate))
        } else if v == Encoding::Zlib.name() {
            Ok(Some(Encoding::Zlib))
        } else if v.len() == 0 {
            Ok(None)
        } else {
            Err(Failure::UnsupportedFeature(Feature::UnknownEncoding))
        }
    }

    /// The content of `data` read as this encoding.
    pub open spec fn decoded(self, data: Seq<u8>) -> Option<Seq<u8>> {
        match self {
            Encoding::Gzip => gzip_decoded(data),
            Encoding::Deflate => deflate_decoded(data),
            Encoding::Zlib => zlib_decoded(data),
        }
    }

    /// Maps a header value, already in uppercase, to the encoding it selects.
    pub fn from_value(v: &str) -> (r: Result<Option<Encoding>, Error>)
        ensures
            match r {
                Ok(e) => Encoding::spec_from_value(v@) == Ok::<Option<Encoding>, Failure>(e),
                Err(e) => Encoding::spec_from_value(v@) == Err::<Option<Encoding>, Failure>(e@),
            },
    {
        if str_eq(v, "GZIP") {
            Ok(Some(Encoding::Gzip))
        } else if str_eq(v, "DEFLATE") {
            Ok(Some(Encoding::Deflate))
        } else if str_eq(v, "ZLIB") {
            Ok(Some(Encoding::Zlib))
        } else if v.is_empty() {
            Ok(None)
        } else {
            Err(Error::UnsupportedFeature(Feature::UnknownEncoding))
        }
    }

    /// Decompresses the whole of `data` into a new buffer.
    pub fn decode(self, data: &[u8]) -> (r: Option<Vec<u8>>)
        ensures
            r.deep_view() == self.decoded(data@),
    {
        match self {
            Encoding::Gzip => gzip_decode(data),
            Encoding::Deflate => deflate_decode(data),
            Encoding::Zlib => zlib_decode(data),
        }
    }
}

} // verus!
