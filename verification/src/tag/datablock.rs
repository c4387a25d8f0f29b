//! Tag datablock specifying the section for tag structs.
use crate::common::endian::{u16_at, u32_at, u64_at};
use crate::common::errors::{eof, Error, Result, TagError};
use crate::common::extensions::{ByteReader, Enumerable};
use crate::tag::header::TagHeader;
use crate::tag::loader::TagFile;
use vstd::prelude::*;

verus! {

/// Location where the data referenced in the tag block is found.
#[derive(Debug, Clone, Copy, PartialEq, Eq, Structural)]
pub enum TagSectionType {
    /// Inside the tag header (metadata), stored as 0.
    Header,
    /// Inside the main parent tag, stored as 1.
    TagData,
    /// Inside resource child tag, stored as 2.
    ResourceData,
    /// Inside the "external" resource (for instance, bitmaps or havok data), stored as 3.
    ActualResource,
}

impl TagSectionType {
    /// The section stored as `number`, if there is one.
    pub open spec fn from_number(number: u16) -> Option<TagSectionType> {
        if number == 0 {
            Some(TagSectionType::Header)
        } else if number == 1 {
            Some(TagSectionType::TagData)
        } else if number == 2 {
            Some(TagSectionType::ResourceData)
        } else if number == 3 {
            Some(TagSectionType::ActualResource)
        } else {
            None
        }
    }

    /// The section stored as `number`; `None` for numbers above 3.
    pub fn try_from_primitive(number: u16) -> (r: Option<TagSectionType>)
        ensures
            r == Self::from_number(number),
    {
        match number {
            0 => Some(TagSectionType::Header),
            1 => Some(TagSectionType::TagData),
            2 => Some(TagSectionType::ResourceData),
            3 => Some(TagSectionType::ActualResource),
            _ => None,
        }
    }

    /// Where the section starts, counted from the start of the tag data:
    /// header and tag data at 0, resource data behind the tag data, the
    /// actual resource behind both.
    pub open spec fn base(&self, header: TagHeader) -> int {
        match self {
            TagSectionType::Header => 0,
            TagSectionType::TagData => 0,
            TagSectionType::ResourceData => header.data_size as int,
            TagSectionType::ActualResource => header.data_size + header.resource_size,
        }
    }
}

impl Default for TagSectionType {
    fn default() -> (r: Self)
        ensures
            r == TagSectionType::Header,
    {
        TagSectionType::Header
    }
}

/// Tag data metadata block containing data on where the binary section is located.
#[derive(Debug, Clone, Copy, PartialEq, Eq, Structural)]
pub struct TagDataBlock {
    /// The size of the data block entry in bytes.
    pub entry_size: u32,
    /// How many unused bytes come before the offset.
    pub padding: u16,
    /// Where the data block is stored.
    pub section_type: TagSectionType,
    /// Offset of where the data is stored from the start of its section.
    pub offset: u64,
}

impl Default for TagDataBlock {
    fn default() -> (r: Self)
        ensures
            r == (TagDataBlock {
                entry_size: 0,
                padding: 0,
                section_type: TagSectionType::Header,
                offset: 0,
            }),
    {
        TagDataBlock { entry_size: 0, padding: 0, section_type: TagSectionType::Header, offset: 0 }
    }
}

impl Enumerable for TagDataBlock {
    /// Sixteen bytes. The section is tested as soon as it is read.
    open spec fn decode(bytes: Seq<u8>, pos: int) -> Result<(Self, int)> {
        if pos + 8 > bytes.len() {
            Err(eof())
        } else if TagSectionType::from_number(u16_at(bytes, pos + 6)) is None {
            Err(Error::TagError(TagError::InvalidTagSection(u16_at(bytes, pos + 6))))
        } else if pos + 16 > bytes.len() {
            Err(eof())
        } else {
            Ok(
                (
                    TagDataBlock {
                        entry_size: u32_at(bytes, pos),
                        padding: u16_at(bytes, pos + 4),
                        section_type: TagSectionType::from_number(u16_at(bytes, pos + 6))->Some_0,
                        offset: u64_at(bytes, pos + 8),
                    },
                    pos + 16,
                ),
            )
        }
    }

    fn read(&mut self, reader: &mut ByteReader) -> (r: Result<()>) {
        self.entry_size = reader.read_u32()?;
        self.padding = reader.read_u16()?;
        let section: u16 = reader.read_u16()?;
        self.section_type = match TagSectionType::try_from_primitive(section) {
            Some(section_type) => section_type,
            None => {
                return Err(Error::TagError(TagError::InvalidTagSection(section)));
            },
        };
        self.offset = reader.read_u64()?;
        Ok(())
    }
}

impl TagDataBlock {
    /// Where the datablock starts, counted from the start of the tag data:
    /// the start of its section plus its offset.
    pub open spec fn position(&self, header: TagHeader) -> int {
        self.section_type.base(header) + self.offset
    }

    /// Where the datablock starts, counted from the start of the tag data,
    /// or `None` where that position does not fit 64 bits.
    pub fn checked_offset(&self, tag_info: &TagFile) -> (r: Option<u64>)
        ensures
            r is Some <==> self.position(tag_info.header) <= u64::MAX,
            r is Some ==> r->Some_0 == self.position(tag_info.header),
    {
        let section_offset: u64 = match self.section_type {
            TagSectionType::TagData | TagSectionType::Header => 0,
            TagSectionType::ResourceData => tag_info.header.data_size as u64,
            TagSectionType::ActualResource => tag_info.header.data_size as u64
                + tag_info.header.resource_size as u64,
        };
        if self.offset <= u64::MAX - section_offset {
            Some(section_offset + self.offset)
        } else {
            None
        }
    }

    /// Where the datablock starts, counted from the start of the tag data.
    pub fn get_offset(&self, tag_info: &TagFile) -> (r: u64)
        requires
            self.position(tag_info.header) <= u64::MAX,
        ensures
            r == self.position(tag_info.header),
    {
        let section_offset: u64 = match self.section_type {
            TagSectionType::TagData | TagSectionType::Header => 0,
            TagSectionType::ResourceData => tag_info.header.data_size as u64,
            TagSectionType::ActualResource => tag_info.header.data_size as u64
                + tag_info.header.resource_size as u64,
        };
        section_offset + self.offset
    }
}

} // verus!
