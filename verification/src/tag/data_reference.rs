//! Data references: where the bytes of a data field lie.
use crate::common::endian::{i32_at, u32_at};
use crate::common::errors::{eof, Result};
use crate::common::extensions::{ByteReader, Enumerable};
use vstd::prelude::*;

verus! {

/// Pairs the place of a data field inside a datablock with the datablock
/// that holds the field's bytes.
#[derive(Debug, Clone, Copy, PartialEq, Eq, Structural)]
pub struct TagDataReference {
    /// Index of the struct definition that holds the field.
    pub parent_struct_index: i32,
    /// Unknown.
    pub unknown: i32,
    /// Index of the datablock that holds the bytes, or -1 where there are none.
    pub target_index: i32,
    /// Index of the datablock that holds the field.
    pub field_block: i32,
    /// Offset of the field inside that datablock.
    pub field_offset: u32,
}

impl Default for TagDataReference {
    fn default() -> (r: Self)
        ensures
            r == (TagDataReference {
                parent_struct_index: 0,
                unknown: 0,
                target_index: 0,
                field_block: 0,
                field_offset: 0,
            }),
    {
        TagDataReference {
            parent_struct_index: 0,
            unknown: 0,
            target_index: 0,
            field_block: 0,
            field_offset: 0,
        }
    }
}

impl Enumerable for TagDataReference {
    /// Twenty bytes.
    open spec fn decode(bytes: Seq<u8>, pos: int) -> Result<(Self, int)> {
        if pos + 20 > bytes.len() {
            Err(eof())
        } else {
            Ok(
                (
                    TagDataReference {
                        parent_struct_index: i32_at(bytes, pos),
                        unknown: i32_at(bytes, pos + 4),
                        target_index: i32_at(bytes, pos + 8),
                        field_block: i32_at(bytes, pos + 12),
                        field_offset: u32_at(bytes, pos + 16),
                    },
                    pos + 20,
                ),
            )
        }
    }

    fn read(&mut self, reader: &mut ByteReader) -> (r: Result<()>) {
        self.parent_struct_index = reader.read_i32()?;
        self.unknown = reader.read_i32()?;
        self.target_index = reader.read_i32()?;
        self.field_block = reader.read_i32()?;
        self.field_offset = reader.read_u32()?;
        Ok(())
    }
}

} // verus!
