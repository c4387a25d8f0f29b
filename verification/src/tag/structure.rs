//! Hierarchical structure entry of tag.
use crate::common::endian::{i32_at, u128_at, u16_at, u32_at};
use crate::common::errors::{eof, Error, Result, TagError};
use crate::common::extensions::{ByteReader, Enumerable};
use vstd::prelude::*;

verus! {

/// Enum defining what the tag struct is pointing to.
#[derive(Debug, Clone, Copy, PartialEq, Eq, Structural)]
pub enum TagStructType {
    /// "Root" of structure, stored as 0.
    MainStruct,
    /// An array of items in structure, stored as 1.
    TagBlock,
    /// Reference to child resource, stored as 2.
    Resource,
    /// Reference to "external" resource, stored as 3.
    Custom,
    /// Unknown, stored as 4.
    Literal,
}

impl TagStructType {
    /// The kind stored as `number`, if there is one.
    pub open spec fn from_number(number: u16) -> Option<TagStructType> {
        if number == 0 {
            Some(TagStructType::MainStruct)
        } else if number == 1 {
            Some(TagStructType::TagBlock)
        } else if number == 2 {
            Some(TagStructType::Resource)
        } else if number == 3 {
            Some(TagStructType::Custom)
        } else if number == 4 {
            Some(TagStructType::Literal)
        } else {
            None
        }
    }

    /// The kind stored as `number`; `None` for numbers above 4.
    pub fn try_from_primitive(number: u16) -> (r: Option<TagStructType>)
        ensures
            r == Self::from_number(number),
    {
        match number {
            0 => Some(TagStructType::MainStruct),
            1 => Some(TagStructType::TagBlock),
            2 => Some(TagStructType::Resource),
            3 => Some(TagStructType::Custom),
            4 => Some(TagStructType::Literal),
            _ => None,
        }
    }
}

impl Default for TagStructType {
    fn default() -> (r: Self)
        ensures
            r == TagStructType::MainStruct,
    {
        TagStructType::MainStruct
    }
}

/// Enum defining where the data of a "Custom" tag structure lies.
#[derive(Debug, Clone, Copy, PartialEq, Eq, Structural)]
pub enum TagStructLocation {
    /// Inside the tag, stored as 0.
    Internal,
    /// Inside a resource, stored as 1.
    Resource,
    /// Inside a debug module, stored as 2.
    Debug,
}

impl TagStructLocation {
    /// The location stored as `number`, if there is one.
    pub open spec fn from_number(number: u16) -> Option<TagStructLocation> {
        if number == 0 {
            Some(TagStructLocation::Internal)
        } else if number == 1 {
            Some(TagStructLocation::Resource)
        } else if number == 2 {
            Some(TagStructLocation::Debug)
        } else {
            None
        }
    }

    /// The location stored as `number`; `None` for numbers above 2.
    pub fn try_from_primitive(number: u16) -> (r: Option<TagStructLocation>)
        ensures
            r == Self::from_number(number),
    {
        match number {
            0 => Some(TagStructLocation::Internal),
            1 => Some(TagStructLocation::Resource),
            2 => Some(TagStructLocation::Debug),
            _ => None,
        }
    }
}

impl Default for TagStructLocation {
    fn default() -> (r: Self)
        ensures
            r == TagStructLocation::Internal,
    {
        TagStructLocation::Internal
    }
}

/// Structure defining the hierarchical order of info in tags.
#[derive(Debug, Clone, Copy, PartialEq, Eq, Structural)]
pub struct TagStruct {
    /// GUID of the structure referenced.
    pub guid: u128,
    /// What the structure is.
    pub struct_type: TagStructType,
    /// Where the data for the structure is located.
    pub location: TagStructLocation,
    /// For main struct and tag block structs, the index of the block containing the struct.
    /// For resource structs, index of the resource.
    /// Can be -1 if the tag field doesn't point to anything.
    pub target_index: i32,
    /// The index of the data block containing the tag field which refers to this struct.
    /// Can be -1 for the main struct.
    pub field_block: i32,
    /// The offset of the tag field inside the data block.
    pub field_offset: u32,
}

impl Default for TagStruct {
    fn default() -> (r: Self)
        ensures
            r == (TagStruct {
                guid: 0,
                struct_type: TagStructType::MainStruct,
                location: TagStructLocation::Internal,
                target_index: 0,
                field_block: 0,
                field_offset: 0,
            }),
    {
        TagStruct {
            guid: 0,
            struct_type: TagStructType::MainStruct,
            location: TagStructLocation::Internal,
            target_index: 0,
            field_block: 0,
            field_offset: 0,
        }
    }
}

impl Enumerable for TagStruct {
    /// Thirty-two bytes. The kind is tested as soon as it is read, then the
    /// location.
    open spec fn decode(bytes: Seq<u8>, pos: int) -> Result<(Self, int)> {
        if pos + 18 > bytes.len() {
            Err(eof())
        } else if TagStructType::from_number(u16_at(bytes, pos + 16)) is None {
            Err(Error::TagError(TagError::InvalidTagStruct(u16_at(bytes, pos + 16))))
        } else if pos + 20 > bytes.len() {
            Err(eof())
        } else if TagStructLocation::from_number(u16_at(bytes, pos + 18)) is None {
            Err(Error::TagError(TagError::InvalidTagStructLocation(u16_at(bytes, pos + 18))))
        } else if pos + 32 > bytes.len() {
            Err(eof())
        } else {
            Ok(
                (
                    TagStruct {
                        guid: u128_at(bytes, pos),
                        struct_type: TagStructType::from_number(u16_at(bytes, pos + 16))->Some_0,
                        location: TagStructLocation::from_number(u16_at(bytes, pos + 18))->Some_0,
                        target_index: i32_at(bytes, pos + 20),
                        field_block: i32_at(bytes, pos + 24),
                        field_offset: u32_at(bytes, pos + 28),
                    },
                    pos + 32,
                ),
            )
        }
    }

    fn read(&mut self, reader: &mut ByteReader) -> (r: Result<()>) {
        self.guid = reader.read_u128()?;
        let kind: u16 = reader.read_u16()?;
        self.struct_type = match TagStructType::try_from_primitive(kind) {
            Some(struct_type) => struct_type,
            None => {
                return Err(Error::TagError(TagError::InvalidTagStruct(kind)));
            },
        };
        let place: u16 = reader.read_u16()?;
        self.location = match TagStructLocation::try_from_primitive(place) {
            Some(location) => location,
            None => {
                return Err(Error::TagError(TagError::InvalidTagStructLocation(place)));
            },
        };
        self.target_index = reader.read_i32()?;
        self.field_block = reader.read_i32()?;
        self.field_offset = reader.read_u32()?;
        Ok(())
    }
}

} // verus!
