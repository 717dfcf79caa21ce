//! The level header file: a format version, a length, and a tag tree.

use vstd::prelude::*;
use crate::error::{DecodeError, WorldError};
use crate::map::copy_bytes;
use crate::tag::{get, lookup, Tag};

verus! {

/// The four little-endian bytes of `v`.
pub open spec fn i32_le_bytes(v: i32) -> Seq<u8> {
    let u = v as u32;
    seq![u as u8, (u >> 8u32) as u8, (u >> 16u32) as u8, (u >> 24u32) as u8]
}

/// The `i32` whose little-endian bytes are `b0 b1 b2 b3`.
pub open spec fn i32_from_le(b0: u8, b1: u8, b2: u8, b3: u8) -> i32 {
    (b0 as u32 | (b1 as u32) << 8u32 | (b2 as u32) << 16u32 | (b3 as u32) << 24u32) as i32
}

/// A header file: format version, length of the tag tree, tag tree bytes.
pub open spec fn level_header_bytes(format_version: i32, nbt: Seq<u8>) -> Seq<u8> {
    i32_le_bytes(format_version) + i32_le_bytes(nbt.len() as i32) + nbt
}

/// What a header file splits into: its format version and the bytes after
/// the length field, which is skipped as it stands; `None` when it is shorter
/// than the two fixed fields.
pub open spec fn split_level_header_spec(b: Seq<u8>) -> Option<(i32, Seq<u8>)> {
    if b.len() < 8 {
        None
    } else {
        Some((i32_from_le(b[0], b[1], b[2], b[3]), b.subrange(8, b.len() as int)))
    }
}

pub proof fn lemma_i32_le_round_trip(v: i32)
    ensures
        i32_from_le(
            i32_le_bytes(v)[0],
            i32_le_bytes(v)[1],
            i32_le_bytes(v)[2],
            i32_le_bytes(v)[3],
        ) == v,
{
    let u = v as u32;
    assert(((u as u8) as u32 | (((u >> 8u32) as u8) as u32) << 8u32 | (((u >> 16u32) as u8) as u32)
        << 16u32 | (((u >> 24u32) as u8) as u32) << 24u32) == u) by (bit_vector);
    assert((u as i32) == v) by (bit_vector)
        requires
            u == v as u32,
    ;
}

/// Splitting a header written from a format version and a tag tree gives
/// both back, and its length field is the tag tree's byte length.
pub proof fn lemma_level_header_round_trip(format_version: i32, nbt: Seq<u8>)
    requires
        nbt.len() <= i32::MAX,
    ensures
        split_level_header_spec(level_header_bytes(format_version, nbt)) == Some((format_version, nbt)),
        ({
            let b = level_header_bytes(format_version, nbt);
            i32_from_le(b[4], b[5], b[6], b[7]) == nbt.len()
        }),
{
    let b = level_header_bytes(format_version, nbt);
    lemma_i32_le_round_trip(format_version);
    lemma_i32_le_round_trip(nbt.len() as i32);
    assert(b.subrange(8, b.len() as int) =~= nbt);
    assert((nbt.len() as i32) as int == nbt.len());
}

fn push_i32_le(out: &mut Vec<u8>, v: i32)
    ensures
        final(out)@ == old(out)@ + i32_le_bytes(v),
{
    let u = v as u32;
    out.push((u & 0xff) as u8);
    out.push(((u >> 8u32) & 0xff) as u8);
    out.push(((u >> 16u32) & 0xff) as u8);
    out.push(((u >> 24u32) & 0xff) as u8);
    assert((u & 0xff) as u8 == u as u8 && ((u >> 8u32) & 0xff) as u8 == (u >> 8u32) as u8 && ((u
        >> 16u32) & 0xff) as u8 == (u >> 16u32) as u8 && ((u >> 24u32) & 0xff) as u8 == (u
        >> 24u32) as u8) by (bit_vector);
    assert(final(out)@ =~= old(out)@ + i32_le_bytes(v));
}

/// Splits a header file into its format version and the tag tree bytes. The
/// length field is skipped and trusted, not compared with what follows.
pub fn split_level_header(buf: &[u8]) -> (r: Result<(i32, Vec<u8>), DecodeError>)
    ensures
        match r {
            Ok((v, nbt)) => split_level_header_spec(buf@) == Some((v, nbt@)),
            Err(e) => split_level_header_spec(buf@) is None && e == DecodeError::Truncated,
        },
{
    if buf.len() < 8 {
        return Err(DecodeError::Truncated);
    }
    let v = (buf[0] as u32 | (buf[1] as u32) << 8u32 | (buf[2] as u32) << 16u32 | (buf[3] as u32)
        << 24u32) as i32;
    let mut nbt: Vec<u8> = Vec::new();
    let mut i: usize = 8;
    while i < buf.len()
        invariant
            8 <= i <= buf@.len(),
            nbt@ == buf@.subrange(8, i as int),
        decreases buf@.len() - i,
    {
        nbt.push(buf[i]);
        i += 1;
        assert(nbt@ =~= buf@.subrange(8, i as int));
    }
    Ok((v, nbt))
}

/// Writes a header file from a format version and the tag tree bytes; the
/// length field is the byte length of `nbt`. A tag tree longer than the
/// length field can count is refused.
pub fn write_level_header(format_version: i32, nbt: &[u8]) -> (r: Result<Vec<u8>, WorldError>)
    ensures
        match r {
            Ok(b) => nbt@.len() <= i32::MAX && b@ == level_header_bytes(format_version, nbt@),
            Err(e) => nbt@.len() > i32::MAX && e is NBTWriteError,
        },
{
    if nbt.len() > 0x7fff_ffff {
        return Err(WorldError::NBTWriteError(String::from_str("tag tree too long for its length field")));
    }
    let mut out: Vec<u8> = Vec::new();
    push_i32_le(&mut out, format_version);
    push_i32_le(&mut out, nbt.len() as i32);
    let mut i: usize = 0;
    let ghost head = out@;
    while i < nbt.len()
        invariant
            0 <= i <= nbt@.len(),
            out@ == head + nbt@.subrange(0, i as int),
        decreases nbt@.len() - i,
    {
        out.push(nbt[i]);
        i += 1;
        assert(out@ =~= head + nbt@.subrange(0, i as int));
    }
    assert(nbt@.subrange(0, nbt@.len() as int) =~= nbt@);
    Ok(out)
}

/// The fields of the header that are read by name.
#[derive(Debug, Clone, PartialEq)]
pub struct LevelDat {
    pub level_name: String,
}

/// The level name that a header's tag tree holds, if it is a compound with a
/// string `LevelName`.
pub open spec fn level_name_of(t: Tag) -> Option<Seq<char>> {
    match t {
        Tag::Compound(e) => match lookup(e@, "LevelName"@) {
            Some(Tag::String(s)) => Some(s@),
            _ => None,
        },
        _ => None,
    }
}

impl LevelDat {
    pub fn from_nbt(t: &Tag) -> (r: Result<LevelDat, DecodeError>)
        ensures
            match r {
                Ok(d) => level_name_of(*t) == Some(d.level_name@),
                Err(_) => level_name_of(*t) is None,
            },
    {
        match t {
            Tag::Compound(e) => match get(e, "LevelName") {
                Some(Tag::String(s)) => Ok(LevelDat { level_name: s.clone() }),
                Some(_) => Err(DecodeError::WrongKind(String::from_str("LevelName"))),
                None => Err(DecodeError::MissingField(String::from_str("LevelName"))),
            },
            _ => Err(DecodeError::NotCompound(String::new())),
        }
    }
}

/// A decoded header: its format version, its whole tag tree, and the fields
/// read from it.
#[derive(Debug)]
pub struct LevelData {
    pub format_version: i32,
    pub nbt: Vec<(String, Tag)>,
    data: LevelDat,
}

impl LevelData {
    pub closed spec fn version(&self) -> i32 {
        self.format_version
    }

    /// The children of the header's tag tree.
    pub closed spec fn payload(&self) -> Seq<(String, Tag)> {
        self.nbt@
    }

    /// The level name read from the tag tree.
    pub closed spec fn level_name(&self) -> Seq<char> {
        self.data.level_name@
    }

    /// The header with format version `format_version` and tag tree `nbt`.
    pub fn from_nbt(format_version: i32, nbt: Tag) -> (r: Result<LevelData, DecodeError>)
        ensures
            match r {
                Ok(d) => {
                    &&& d.version() == format_version
                    &&& nbt matches Tag::Compound(e)
                    &&& d.payload() == nbt->Compound_0@
                    &&& level_name_of(nbt) == Some(d.level_name())
                },
                Err(_) => level_name_of(nbt) is None,
            },
    {
        let data = LevelDat::from_nbt(&nbt)?;
        match nbt {
            Tag::Compound(e) => Ok(LevelData { format_version, nbt: e, data }),
            _ => Err(DecodeError::NotCompound(String::new())),
        }
    }

    pub fn get_data(&self) -> (r: &LevelDat)
        ensures
            r.level_name@ == self.level_name(),
    {
        &self.data
    }
}

} // verus!
