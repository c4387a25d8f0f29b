//! Tag header: magic, version and the sizes of the tables and sections.
use crate::common::endian::{i32_at, i64_at, u32_at};
use crate::common::errors::{eof, Error, Result, TagError};
use crate::common::extensions::ByteReader;
use vstd::prelude::*;

verus! {

/// "ucsh", the first four bytes of every tag, as a little-endian number.
pub const HEADER_MAGIC: u32 = 0x6873_6375;

/// The only version of the tag header that is read.
pub const HEADER_VERSION: i32 = 27;

/// The number of bytes that the tag header occupies.
pub const HEADER_LEN: u64 = 80;

/// Tag Header structure containing info on the layout of the tag file.
#[derive(Debug, Clone, Copy, PartialEq, Eq, Structural)]
pub struct TagHeader {
    /// Has to be "ucsh" (0x68736375)
    pub magic: u32,
    /// Should be 27.
    pub version: i32,
    /// Secondary GUID to identify the root structure.
    pub root_struct_guid: i64,
    /// Checksum generated from unknown algorithm
    pub checksum: i64,
    /// Number of tags required to load tag.
    pub dependency_count: u32,
    /// Number of datablocks that exist within tag (offsets, sections etc).
    pub datablock_count: u32,
    /// Number of tag struct definitions that make up the actual structure of the tag.
    pub tagstruct_count: u32,
    /// Number of "external" data references (to other tags) in tag.
    pub data_reference_count: u32,
    /// Number of internal references to structures.
    pub tag_reference_count: u32,
    /// Size in bytes of string table inside tag.
    pub string_table_size: u32,
    /// Size in bytes of "zoneset" section of tag.
    pub zoneset_size: u32,
    /// Unknown. Possibly used to split something in memory.
    pub unknown: u32,
    /// Size of the header and the tables read after it.
    pub header_size: u32,
    /// Size of actual data in tag, referenced in tag structs.
    pub data_size: u32,
    /// Size of resource in tag (after data!)
    pub resource_size: u32,
    /// Size of "external" data, for instance Havok data.
    pub actual_resource_size: u32,
    /// Power of 2 to align the header to.
    pub header_alignment: u8,
    /// Power of 2 to align the tag data to.
    pub tag_alignment: u8,
    /// Power of 2 to align resource data to.
    pub resource_alignment: u8,
    /// Power of 2 to align actual resource to.
    pub actual_resource_alignment: u8,
    /// Indicates if the file is a resource.
    pub is_resource: bool,
}

impl Default for TagHeader {
    fn default() -> (r: Self)
        ensures
            r.dependency_count == 0,
            r.datablock_count == 0,
            r.tagstruct_count == 0,
            r.data_reference_count == 0,
            r.data_size == 0,
            r.resource_size == 0,
    {
        TagHeader {
            magic: 0,
            version: 0,
            root_struct_guid: 0,
            checksum: 0,
            dependency_count: 0,
            datablock_count: 0,
            tagstruct_count: 0,
            data_reference_count: 0,
            tag_reference_count: 0,
            string_table_size: 0,
            zoneset_size: 0,
            unknown: 0,
            header_size: 0,
            data_size: 0,
            resource_size: 0,
            actual_resource_size: 0,
            header_alignment: 0,
            tag_alignment: 0,
            resource_alignment: 0,
            actual_resource_alignment: 0,
            is_resource: false,
        }
    }
}

impl TagHeader {
    /// The header encoded in the 80 bytes from `pos`.
    pub open spec fn at(bytes: Seq<u8>, pos: int) -> TagHeader {
        TagHeader {
            magic: u32_at(bytes, pos),
            version: i32_at(bytes, pos + 4),
            root_struct_guid: i64_at(bytes, pos + 8),
            checksum: i64_at(bytes, pos + 16),
            dependency_count: u32_at(bytes, pos + 24),
            datablock_count: u32_at(bytes, pos + 28),
            tagstruct_count: u32_at(bytes, pos + 32),
            data_reference_count: u32_at(bytes, pos + 36),
            tag_reference_count: u32_at(bytes, pos + 40),
            string_table_size: u32_at(bytes, pos + 44),
            zoneset_size: u32_at(bytes, pos + 48),
            unknown: u32_at(bytes, pos + 52),
            header_size: u32_at(bytes, pos + 56),
            data_size: u32_at(bytes, pos + 60),
            resource_size: u32_at(bytes, pos + 64),
            actual_resource_size: u32_at(bytes, pos + 68),
            header_alignment: bytes[pos + 72],
            tag_alignment: bytes[pos + 73],
            resource_alignment: bytes[pos + 74],
            actual_resource_alignment: bytes[pos + 75],
            is_resource: u32_at(bytes, pos + 76) != 0,
        }
    }

    /// The header encoded at `pos`, or the error with which reading it
    /// fails. The magic is tested first, then the version.
    pub open spec fn decode(bytes: Seq<u8>, pos: int) -> Result<TagHeader> {
        if pos + 4 > bytes.len() {
            Err(eof())
        } else if u32_at(bytes, pos) != HEADER_MAGIC {
            Err(Error::TagError(TagError::IncorrectMagic(u32_at(bytes, pos))))
        } else if pos + 8 > bytes.len() {
            Err(eof())
        } else if i32_at(bytes, pos + 4) != HEADER_VERSION {
            Err(Error::TagError(TagError::IncorrectVersion(i32_at(bytes, pos + 4))))
        } else if pos + HEADER_LEN > bytes.len() {
            Err(eof())
        } else {
            Ok(Self::at(bytes, pos))
        }
    }

    /// Reads the tag header at the reader's position.
    ///
    /// Fails with [`TagError::IncorrectMagic`] where the first four bytes are
    /// not "ucsh" and with [`TagError::IncorrectVersion`] where the version
    /// is not 27.
    pub fn read(&mut self, reader: &mut ByteReader) -> (r: Result<()>)
        ensures
            final(reader).bytes() == old(reader).bytes(),
            match Self::decode(old(reader).bytes(), old(reader).pos() as int) {
                Ok(header) => r is Ok && *final(self) == header && final(reader).pos() == old(reader).pos() + HEADER_LEN,
                Err(e) => r == Err::<(), Error>(e),
            },
            r matches Err(Error::TagError(TagError::IncorrectMagic(_))) ==> final(reader).pos()
                == old(reader).pos() + 4,
            r matches Err(Error::TagError(TagError::IncorrectVersion(_))) ==> final(reader).pos()
                == old(reader).pos() + 8,
    {
        self.magic = reader.read_u32()?;
        if self.magic != HEADER_MAGIC {
            return Err(Error::TagError(TagError::IncorrectMagic(self.magic)));
        }
        self.version = reader.read_i32()?;
        if self.version != HEADER_VERSION {
            return Err(Error::TagError(TagError::IncorrectVersion(self.version)));
        }
        self.root_struct_guid = reader.read_i64()?;
        self.checksum = reader.read_i64()?;
        self.dependency_count = reader.read_u32()?;
        self.datablock_count = reader.read_u32()?;
        self.tagstruct_count = reader.read_u32()?;
        self.data_reference_count = reader.read_u32()?;
        self.tag_reference_count = reader.read_u32()?;
        self.string_table_size = reader.read_u32()?;
        self.zoneset_size = reader.read_u32()?;
        self.unknown = reader.read_u32()?;
        self.header_size = reader.read_u32()?;
        self.data_size = reader.read_u32()?;
        self.resource_size = reader.read_u32()?;
        self.actual_resource_size = reader.read_u32()?;
        self.header_alignment = reader.read_u8()?;
        self.tag_alignment = reader.read_u8()?;
        self.resource_alignment = reader.read_u8()?;
        self.actual_resource_alignment = reader.read_u8()?;
        self.is_resource = reader.read_u32()? != 0;
        Ok(())
    }
}

} // verus!
