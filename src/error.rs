//! What can go wrong when records are read or written.

use vstd::prelude::*;

verus! {

/// A tag tree that does not have the shape a record needs; each variant names
/// the field or path where the mismatch was found.
#[derive(Debug, Clone, PartialEq)]
pub enum DecodeError {
    /// A record or table that must be a compound is not one.
    NotCompound(String),
    /// A required field is absent.
    MissingField(String),
    /// A field holds a tag of the wrong kind.
    WrongKind(String),
    /// A map's colour buffer does not hold `width * height * 4` bytes.
    ColorsLength,
    /// A header is shorter than its fixed fields.
    Truncated,
}

/// Failures of the world store.
#[derive(Debug, Clone, PartialEq)]
pub enum WorldError {
    /// The file system refused a read.
    IOError(String),
    /// Bytes that are not a tag tree.
    NBTReadError(String),
    /// A tag tree that could not be written.
    NBTWriteError(String),
    /// A tag tree that is not the record asked for.
    NBTDeserializeError(DecodeError),
    /// A record that could not be turned into a tag tree.
    NBTSerializeError(String),
    /// A block that could not be inflated.
    CompressionError(String),
    /// The store is not open.
    DBClosed,
    /// No record is stored under this key.
    DBValueNotFound(Vec<u8>),
}

} // verus!
