//! Module header: magic, revision and the sizes of the tables that follow.
use crate::common::endian::{i32_at, i64_at, u32_at, u64_at};
use crate::common::errors::{eof, Error, ModuleError, ReadFailure, Result};
use crate::common::extensions::ByteReader;
use vstd::prelude::*;

verus! {

/// "mohd", the first four bytes of every module, as a little-endian number.
pub const HEADER_MAGIC: u32 = 0x6468_6F6D;

/// Revision number of a module file.
/// This version number determines how tags should be read.
#[derive(Debug, Clone, Copy, PartialEq, Eq, Structural, PartialOrd, Ord)]
pub enum ModuleVersion {
    /// First "technical preview" build from July 2021, revision 48.
    Flight1,
    /// Second technical preview and the release of November 2021, revision 51.
    Release,
    /// Build of the co-op campaign flight, revision 52.
    CampaignFlight,
    /// Builds from Season 3 onwards, revision 53.
    Season3,
}

impl ModuleVersion {
    /// The revision number that the header stores for this version.
    pub open spec fn spec_number(&self) -> i32 {
        match self {
            ModuleVersion::Flight1 => 48,
            ModuleVersion::Release => 51,
            ModuleVersion::CampaignFlight => 52,
            ModuleVersion::Season3 => 53,
        }
    }

    /// The version with revision number `number`, if there is one.
    pub open spec fn from_number(number: i32) -> Option<ModuleVersion> {
        if number == 48 {
            Some(ModuleVersion::Flight1)
        } else if number == 51 {
            Some(ModuleVersion::Release)
        } else if number == 52 {
            Some(ModuleVersion::CampaignFlight)
        } else if number == 53 {
            Some(ModuleVersion::Season3)
        } else {
            None
        }
    }

    /// The revision number that the header stores for this version.
    #[verifier::when_used_as_spec(spec_number)]
    pub fn number(&self) -> (r: i32)
        ensures
            r == self.spec_number(),
    {
        match self {
            ModuleVersion::Flight1 => 48,
            ModuleVersion::Release => 51,
            ModuleVersion::CampaignFlight => 52,
            ModuleVersion::Season3 => 53,
        }
    }

    /// The version with revision number `number`; `None` for any number
    /// other than 48, 51, 52 and 53.
    pub fn try_from_primitive(number: i32) -> (r: Option<ModuleVersion>)
        ensures
            r == Self::from_number(number),
    {
        match number {
            48 => Some(ModuleVersion::Flight1),
            51 => Some(ModuleVersion::Release),
            52 => Some(ModuleVersion::CampaignFlight),
            53 => Some(ModuleVersion::Season3),
            _ => None,
        }
    }
}

impl Default for ModuleVersion {
    fn default() -> (r: Self)
        ensures
            r == ModuleVersion::Season3,
    {
        ModuleVersion::Season3
    }
}

/// Module Header structure containing info on the layout of the module file.
#[derive(Debug, Clone, Copy, PartialEq, Eq, Structural)]
pub struct ModuleHeader {
    /// Should be "mohd" (0x64686F6D)
    pub magic: u32,
    /// Revision number of the module.
    /// This determines how offsets are calculated and if tag names should be read.
    pub version: ModuleVersion,
    /// Unique identifier of module.
    pub module_id: i64,
    /// Number of files in the module.
    pub file_count: u32,
    /// Index of `loadmanifest` tag, which contains the tag ids that the module will load.
    pub loadmanifest_index: i32,
    /// Index of `runtimeloadmetadata` tag, which contains info on how tags should be loaded at runtime.
    pub runtimeloadmetadata_index: i32,
    /// Index of `resourcemetadata` tag, which contains info on how resources should be loaded.
    pub resourcemetadata_index: i32,
    /// Index of the first resource entry (`file_count` - `resource_count`).
    pub resource_index: i32,
    /// Total size in bytes of the string table.
    pub strings_size: u32,
    /// Number of resource files.
    pub resource_count: u32,
    /// Number of data blocks.
    pub block_count: u32,
    /// Same between modules, changes per build?
    pub build_version: u64,
    /// If non-zero, requires hd1 file.
    pub hd1_delta: u64,
    /// Total size of packed data in the module, compressed and uncompressed.
    /// Only meaningful from [`ModuleVersion::Season3`] on.
    pub data_size: u64,
}

impl Default for ModuleHeader {
    fn default() -> (r: Self)
        ensures
            r.version == ModuleVersion::Season3,
            r.file_count == 0,
            r.strings_size == 0,
            r.resource_count == 0,
            r.block_count == 0,
            r.hd1_delta == 0,
    {
        ModuleHeader {
            magic: 0,
            version: ModuleVersion::Season3,
            module_id: 0,
            file_count: 0,
            loadmanifest_index: 0,
            runtimeloadmetadata_index: 0,
            resourcemetadata_index: 0,
            resource_index: 0,
            strings_size: 0,
            resource_count: 0,
            block_count: 0,
            build_version: 0,
            hd1_delta: 0,
            data_size: 0,
        }
    }
}

impl ModuleHeader {
    /// The number of bytes that a header of `version` occupies: 72 bytes of
    /// fields, followed from revision 51 on by 8 reserved bytes.
    pub open spec fn encoded_len(version: ModuleVersion) -> int {
        if version.spec_number() >= 51 {
            80
        } else {
            72
        }
    }

    /// How reading a header at `pos` ends. The magic is tested before
    /// anything else is read, then the revision, then the other fields.
    pub open spec fn read_outcome(bytes: Seq<u8>, pos: int) -> Result<()> {
        if pos + 4 > bytes.len() {
            Err(eof())
        } else if u32_at(bytes, pos) != HEADER_MAGIC {
            Err(Error::ModuleError(ModuleError::IncorrectMagic(u32_at(bytes, pos))))
        } else if pos + 8 > bytes.len() {
            Err(eof())
        } else if ModuleVersion::from_number(i32_at(bytes, pos + 4)) is None {
            Err(Error::ModuleError(ModuleError::IncorrectVersion(i32_at(bytes, pos + 4))))
        } else if pos + 72 > bytes.len() {
            Err(eof())
        } else if i32_at(bytes, pos + 4) >= 51 && pos + 80 > u64::MAX {
            Err(Error::ReadError(ReadFailure::InvalidSeek))
        } else {
            Ok(())
        }
    }

    /// The header encoded in the 72 bytes from `pos`, where the revision is
    /// a known one.
    pub open spec fn at(bytes: Seq<u8>, pos: int) -> ModuleHeader {
        ModuleHeader {
            magic: u32_at(bytes, pos),
            version: ModuleVersion::from_number(i32_at(bytes, pos + 4))->Some_0,
            module_id: i64_at(bytes, pos + 8),
            file_count: u32_at(bytes, pos + 16),
            loadmanifest_index: i32_at(bytes, pos + 20),
            runtimeloadmetadata_index: i32_at(bytes, pos + 24),
            resourcemetadata_index: i32_at(bytes, pos + 28),
            resource_index: i32_at(bytes, pos + 32),
            strings_size: u32_at(bytes, pos + 36),
            resource_count: u32_at(bytes, pos + 40),
            block_count: u32_at(bytes, pos + 44),
            build_version: u64_at(bytes, pos + 48),
            hd1_delta: u64_at(bytes, pos + 56),
            data_size: u64_at(bytes, pos + 64),
        }
    }

    /// Reads the module header at the reader's position.
    ///
    /// Fails with [`ModuleError::IncorrectMagic`] where the first four bytes
    /// are not "mohd", having read nothing but those four bytes, and with
    /// [`ModuleError::IncorrectVersion`] where the revision is none of 48,
    /// 51, 52 and 53.
    pub fn read(&mut self, reader: &mut ByteReader) -> (r: Result<()>)
        ensures
            final(reader).bytes() == old(reader).bytes(),
            r == Self::read_outcome(old(reader).bytes(), old(reader).pos() as int),
            r is Ok ==> *final(self) == Self::at(old(reader).bytes(), old(reader).pos() as int)
                && final(reader).pos() == old(reader).pos() + Self::encoded_len(
                final(self).version,
            ),
            r matches Err(Error::ModuleError(ModuleError::IncorrectMagic(_))) ==> final(reader).pos() == old(reader).pos() + 4,
            r matches Err(Error::ModuleError(ModuleError::IncorrectVersion(_))) ==> final(reader).pos() == old(reader).pos() + 8,
    {
        self.magic = reader.read_u32()?;
        if self.magic != HEADER_MAGIC {
            return Err(Error::ModuleError(ModuleError::IncorrectMagic(self.magic)));
        }
        let number: i32 = reader.read_i32()?;
        self.version = match ModuleVersion::try_from_primitive(number) {
            Some(version) => version,
            None => {
                return Err(Error::ModuleError(ModuleError::IncorrectVersion(number)));
            },
        };
        self.module_id = reader.read_i64()?;
        self.file_count = reader.read_u32()?;
        self.loadmanifest_index = reader.read_i32()?;
        self.runtimeloadmetadata_index = reader.read_i32()?;
        self.resourcemetadata_index = reader.read_i32()?;
        self.resource_index = reader.read_i32()?;
        self.strings_size = reader.read_u32()?;
        self.resource_count = reader.read_u32()?;
        self.block_count = reader.read_u32()?;
        self.build_version = reader.read_u64()?;
        self.hd1_delta = reader.read_u64()?;
        self.data_size = reader.read_u64()?;
        if self.version.number() >= 51 {
            reader.seek_relative(8)?;
        }
        Ok(())
    }
}

} // verus!
