//! Access layer for a world save: block compression, the tag-tree record
//! codecs, the keyspace of the embedded store and the state of the store handle.

pub mod compression;
pub mod tag;
pub mod keys;
pub mod error;
pub mod map;
pub mod property;
pub mod entity;
pub mod level;
pub mod world;
