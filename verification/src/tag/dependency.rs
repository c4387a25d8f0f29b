//! Dependency records: the other tags that a tag needs.
use crate::common::endian::{i32_at, u32_at, u64_at};
use crate::common::errors::{eof, Result};
use crate::common::extensions::{ByteReader, Enumerable};
use vstd::prelude::*;

verus! {

/// One tag that has to be loaded together with this tag. The record is
/// carried along as it is stored; nothing in this crate interprets it.
#[derive(Debug, Clone, Copy, PartialEq, Eq, Structural)]
pub struct TagDependency {
    /// Tag group of the dependency: four characters, stored in reverse.
    pub tag_group: u32,
    /// Offset of the dependency's name in the tag's string table.
    pub name_offset: u32,
    /// Asset id of the dependency.
    pub asset_id: u64,
    /// Global tag id of the dependency.
    pub global_id: i32,
    /// Unknown.
    pub unknown: i32,
}

impl Default for TagDependency {
    fn default() -> (r: Self)
        ensures
            r == (TagDependency { tag_group: 0, name_offset: 0, asset_id: 0, global_id: 0, unknown: 0 }),
    {
        TagDependency { tag_group: 0, name_offset: 0, asset_id: 0, global_id: 0, unknown: 0 }
    }
}

impl Enumerable for TagDependency {
    /// Twenty-four bytes.
    open spec fn decode(bytes: Seq<u8>, pos: int) -> Result<(Self, int)> {
        if pos + 24 > bytes.len() {
            Err(eof())
        } else {
            Ok(
                (
                    TagDependency {
                        tag_group: u32_at(bytes, pos),
                        name_offset: u32_at(bytes, pos + 4),
                        asset_id: u64_at(bytes, pos + 8),
                        global_id: i32_at(bytes, pos + 16),
                        unknown: i32_at(bytes, pos + 20),
                    },
                    pos + 24,
                ),
            )
        }
    }

    fn read(&mut self, reader: &mut ByteReader) -> (r: Result<()>) {
        self.tag_group = reader.read_u32()?;
        self.name_offset = reader.read_u32()?;
        self.asset_id = reader.read_u64()?;
        self.global_id = reader.read_i32()?;
        self.unknown = reader.read_i32()?;
        Ok(())
    }
}

} // verus!
