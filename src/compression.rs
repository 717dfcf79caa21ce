//! Block compression strategies that the embedded store selects by codec id.

use vstd::prelude::*;

verus! {

/// Codec id of zlib-wrapped deflate.
pub const ZLIB_CODEC_ID: u8 = 2;

/// Codec id of raw (headerless) deflate.
pub const RAW_ZLIB_CODEC_ID: u8 = 4;

/// Highest compression level that the deflate encoder accepts.
pub const MAX_COMPRESSION_LEVEL: u8 = 10;

/// Bytes that miniz_oxide's zlib-wrapped deflate makes of `data` at `level`.
pub uninterp spec fn zlib_deflated(level: u8, data: Seq<u8>) -> Seq<u8>;

/// What miniz_oxide's zlib inflate makes of `data`: `None` where it fails.
pub uninterp spec fn zlib_inflated(data: Seq<u8>) -> Option<Seq<u8>>;

/// Bytes that miniz_oxide's raw deflate makes of `data` at `level`.
pub uninterp spec fn raw_deflated(level: u8, data: Seq<u8>) -> Seq<u8>;

/// What miniz_oxide's raw inflate makes of `data`: `None` where it fails.
pub uninterp spec fn raw_inflated(data: Seq<u8>) -> Option<Seq<u8>>;

/// A block that could not be inflated, with the inflater's own description.
#[derive(Debug, Clone, PartialEq)]
pub struct CompressionError {
    pub message: String,
}

/// Relies on miniz_oxide::deflate::compress_to_vec_zlib, which never fails.
#[verifier::external_body]
fn deflate_zlib(level: u8, data: &[u8]) -> (r: Vec<u8>)
    ensures
        r@ == zlib_deflated(level, data@),
{
    miniz_oxide::deflate::compress_to_vec_zlib(data, level)
}

/// Relies on miniz_oxide::inflate::decompress_to_vec_zlib: `Ok` with the
/// inflated bytes, or its error described as text.
#[verifier::external_body]
fn inflate_zlib(data: &[u8]) -> (r: Result<Vec<u8>, String>)
    ensures
        match r {
            Ok(v) => zlib_inflated(data@) == Some(v@),
            Err(_) => zlib_inflated(data@) is None,
        },
{
    miniz_oxide::inflate::decompress_to_vec_zlib(data).map_err(|e| e.to_string())
}

/// Relies on miniz_oxide::deflate::compress_to_vec, which never fails.
#[verifier::external_body]
fn deflate_raw(level: u8, data: &[u8]) -> (r: Vec<u8>)
    ensures
        r@ == raw_deflated(level, data@),
{
    miniz_oxide::deflate::compress_to_vec(data, level)
}

/// Relies on miniz_oxide::inflate::decompress_to_vec: `Ok` with the inflated
/// bytes, or its error described as text.
#[verifier::external_body]
fn inflate_raw(data: &[u8]) -> (r: Result<Vec<u8>, String>)
    ensures
        match r {
            Ok(v) => raw_inflated(data@) == Some(v@),
            Err(_) => raw_inflated(data@) is None,
        },
{
    miniz_oxide::inflate::decompress_to_vec(data).map_err(|e| e.to_string())
}

/// Zlib-wrapped deflate at a fixed level (codec id 2).
pub struct ZlibCompressor(u8);

impl ZlibCompressor {
    pub closed spec fn level(&self) -> u8 {
        self.0
    }

    /// A compressor at `level`; levels above 10 are a configuration error.
    pub fn new(level: u8) -> (r: Self)
        requires
            level <= MAX_COMPRESSION_LEVEL,
        ensures
            r.level() == level,
    {
        ZlibCompressor(level)
    }

    pub fn encode(&self, block: Vec<u8>) -> (r: Vec<u8>)
        ensures
            r@ == zlib_deflated(self.level(), block@),
    {
        deflate_zlib(self.0, block.as_slice())
    }

    pub fn decode(&self, block: Vec<u8>) -> (r: Result<Vec<u8>, CompressionError>)
        ensures
            match r {
                Ok(v) => zlib_inflated(block@) == Some(v@),
                Err(_) => zlib_inflated(block@) is None,
            },
    {
        match inflate_zlib(block.as_slice()) {
            Ok(v) => Ok(v),
            Err(message) => Err(CompressionError { message }),
        }
    }
}

/// Raw (headerless) deflate at a fixed level (codec id 4).
pub struct RawZlibCompressor(u8);

impl RawZlibCompressor {
    pub closed spec fn level(&self) -> u8 {
        self.0
    }

    /// A compressor at `level`; levels above 10 are a configuration error.
    pub fn new(level: u8) -> (r: Self)
        requires
            level <= MAX_COMPRESSION_LEVEL,
        ensures
            r.level() == level,
    {
        RawZlibCompressor(level)
    }

    pub fn encode(&self, block: Vec<u8>) -> (r: Vec<u8>)
        ensures
            r@ == raw_deflated(self.level(), block@),
    {
        deflate_raw(self.0, block.as_slice())
    }

    pub fn decode(&self, block: Vec<u8>) -> (r: Result<Vec<u8>, CompressionError>)
        ensures
            match r {
                Ok(v) => raw_inflated(block@) == Some(v@),
                Err(_) => raw_inflated(block@) is None,
            },
    {
        match inflate_raw(block.as_slice()) {
            Ok(v) => Ok(v),
            Err(message) => Err(CompressionError { message }),
        }
    }
}

/// One of the registered block strategies.
pub enum Codec {
    Zlib(ZlibCompressor),
    Raw(RawZlibCompressor),
}

/// What decoding `block` under `codec` gives: the inflated bytes, or `None`.
pub open spec fn codec_inflated(codec: Codec, block: Seq<u8>) -> Option<Seq<u8>> {
    match codec {
        Codec::Zlib(_) => zlib_inflated(block),
        Codec::Raw(_) => raw_inflated(block),
    }
}

/// What encoding `block` under `codec` gives.
pub open spec fn codec_deflated(codec: Codec, block: Seq<u8>) -> Seq<u8> {
    match codec {
        Codec::Zlib(c) => zlib_deflated(c.level(), block),
        Codec::Raw(c) => raw_deflated(c.level(), block),
    }
}

impl Codec {
    pub fn encode(&self, block: Vec<u8>) -> (r: Vec<u8>)
        ensures
            r@ == codec_deflated(*self, block@),
    {
        match self {
            Codec::Zlib(c) => c.encode(block),
            Codec::Raw(c) => c.encode(block),
        }
    }

    pub fn decode(&self, block: Vec<u8>) -> (r: Result<Vec<u8>, CompressionError>)
        ensures
            match r {
                Ok(v) => codec_inflated(*self, block@) == Some(v@),
                Err(_) => codec_inflated(*self, block@) is None,
            },
    {
        match self {
            Codec::Zlib(c) => c.decode(block),
            Codec::Raw(c) => c.decode(block),
        }
    }
}

/// A small table from codec id to strategy, handed to the store when it opens.
pub struct CodecRegistry {
    pub entries: Vec<(u8, Codec)>,
}

/// The first strategy registered under `id` in `entries`.
pub open spec fn codec_lookup(entries: Seq<(u8, Codec)>, id: u8) -> Option<Codec>
    decreases entries.len(),
{
    if entries.len() == 0 {
        None
    } else if entries[0].0 == id {
        Some(entries[0].1)
    } else {
        codec_lookup(entries.drop_first(), id)
    }
}

impl CodecRegistry {
    /// The save format's strategies: zlib under id 2 and raw deflate under id 4,
    /// both at `level`.
    pub fn bedrock(level: u8) -> (r: Self)
        requires
            level <= MAX_COMPRESSION_LEVEL,
        ensures
            r.entries@.len() == 2,
            r.entries@[0].0 == ZLIB_CODEC_ID,
            r.entries@[0].1 matches Codec::Zlib(c) && c.level() == level,
            r.entries@[1].0 == RAW_ZLIB_CODEC_ID,
            r.entries@[1].1 matches Codec::Raw(c) && c.level() == level,
    {
        let mut entries: Vec<(u8, Codec)> = Vec::new();
        entries.push((ZLIB_CODEC_ID, Codec::Zlib(ZlibCompressor::new(level))));
        entries.push((RAW_ZLIB_CODEC_ID, Codec::Raw(RawZlibCompressor::new(level))));
        CodecRegistry { entries }
    }

    /// The strategy registered under `id`, if any.
    pub fn get(&self, id: u8) -> (r: Option<&Codec>)
        ensures
            match r {
                Some(c) => codec_lookup(self.entries@, id) == Some(*c),
                None => codec_lookup(self.entries@, id) is None,
            },
    {
        let mut i: usize = 0;
        assert(self.entries@.skip(0) =~= self.entries@);
        while i < self.entries.len()
            invariant
                0 <= i <= self.entries@.len(),
                codec_lookup(self.entries@, id) == codec_lookup(self.entries@.skip(i as int), id),
            decreases self.entries@.len() - i,
        {
            assert(self.entries@.skip(i as int).drop_first() =~= self.entries@.skip(i + 1));
            if self.entries[i].0 == id {
                return Some(&self.entries[i].1);
            }
            i += 1;
        }
        None
    }
}

} // verus!
