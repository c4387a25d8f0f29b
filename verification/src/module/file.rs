//! Module file entry containing metadata relating to tags and functions to read them.
use crate::common::endian::{i128_at, i32_at, u16_at, u32_at, u64_at};
use crate::common::errors::{eof, Error, ModuleError, ReadFailure, Result, TagError};
use crate::common::extensions::{
    exact_at, fixed_string, rest_at, reversed, BufReaderExt, ByteReader,
};
use crate::module::block::{blocks_partition, stretch, ModuleBlockEntry};
use crate::module::header::ModuleVersion;
use crate::tag::loader::TagFile;
use vstd::prelude::*;
use vstd::string::StringExecFns;

verus! {

/// Flag of [`DataOffsetType`]: the data lies in the HD1 module.
pub const USE_HD1: u16 = 1;

/// Flag of [`DataOffsetType`]: the file is present in a debug module.
pub const DEBUG: u16 = 2;

/// Flag of [`FileEntryFlags`]: the tag is compressed.
pub const COMPRESSED: u8 = 1;

/// Flag of [`FileEntryFlags`]: the tag is made up of blocks which need to be
/// joined to assemble the entire file entry.
pub const HAS_BLOCKS: u8 = 2;

/// Flag of [`FileEntryFlags`]: "raw tag" that does not contain a tag header.
pub const RAW_FILE: u8 = 4;

/// Flags for the last 2 bytes of the data offset. No flag set means that no
/// additional HD1 module is required.
#[derive(Debug, Clone, Copy, PartialEq, Eq, Structural)]
pub struct DataOffsetType {
    /// The sixteen bits as stored; bits without a meaning are kept.
    pub bits: u16,
}

impl DataOffsetType {
    /// The flags with exactly the bits of `bits`.
    pub fn from_bits_retain(bits: u16) -> (r: Self)
        ensures
            r.bits == bits,
    {
        DataOffsetType { bits }
    }

    /// Whether every bit of `flags` is set.
    pub open spec fn has(&self, flags: u16) -> bool {
        self.bits & flags == flags
    }

    /// Whether every bit of `flags` is set.
    #[verifier::when_used_as_spec(has)]
    pub fn contains(&self, flags: u16) -> (r: bool)
        ensures
            r == self.has(flags),
    {
        self.bits & flags == flags
    }
}

impl Default for DataOffsetType {
    fn default() -> (r: Self)
        ensures
            r.bits == 0,
    {
        DataOffsetType { bits: 0 }
    }
}

/// Flags that determine how a tag should be read.
#[derive(Debug, Clone, Copy, PartialEq, Eq, Structural)]
pub struct FileEntryFlags {
    /// The three known bits; all others are zero.
    pub bits: u8,
}

impl FileEntryFlags {
    /// The flags with the known bits of `bits`; unknown bits are dropped.
    pub fn from_bits_truncate(bits: u8) -> (r: Self)
        ensures
            r.bits == bits & 7,
    {
        FileEntryFlags { bits: bits & 7 }
    }

    /// Whether every bit of `flags` is set.
    pub open spec fn has(&self, flags: u8) -> bool {
        self.bits & flags == flags
    }

    /// Whether every bit of `flags` is set.
    #[verifier::when_used_as_spec(has)]
    pub fn contains(&self, flags: u8) -> (r: bool)
        ensures
            r == self.has(flags),
    {
        self.bits & flags == flags
    }
}

impl Default for FileEntryFlags {
    fn default() -> (r: Self)
        ensures
            r.bits == 0,
    {
        FileEntryFlags { bits: 0 }
    }
}

/// The low 48 bits of a stored data offset: the offset itself.
pub open spec fn offset_part(stored: u64) -> u64 {
    stored & 0x0000_FFFF_FFFF_FFFF
}

/// The high 16 bits of a stored data offset: its flags.
pub open spec fn flags_part(stored: u64) -> u16 {
    ((stored >> 48) & 0xFFFF) as u16
}

/// Splits a stored data offset into the offset and its flags.
pub fn split_data_offset(stored: u64) -> (r: (u64, DataOffsetType))
    ensures
        r.0 == offset_part(stored),
        r.1.bits == flags_part(stored),
{
    let high: u64 = (stored >> 48) & 0xFFFF;
    assert(high <= 0xFFFF) by (bit_vector)
        requires
            high == (stored >> 48) & 0xFFFF,
    ;
    (stored & 0x0000_FFFF_FFFF_FFFF, DataOffsetType::from_bits_retain(high as u16))
}

/// Module file entry structure containing metadata relating to file and required buffer sizes
/// and offsets for the decompressor, as well as global tag ID, resource references and class.
#[derive(Debug)]
pub struct ModuleFileEntry {
    /// Unknown, some sort of size?
    pub unknown: u8,
    /// Determine how the file should be read.
    pub flags: FileEntryFlags,
    /// Number of blocks that make up the file.
    pub block_count: u16,
    /// Index of the first block in the module.
    pub block_index: i32,
    /// Index of the first resource in the module's resource list.
    pub resource_index: i32,
    /// Tag group: four characters, stored in reverse. This determines how the rest of the tag is read.
    /// Example:
    /// * `bitm`: Bitmap
    /// * `mat `: Material
    pub tag_group: String,
    /// Offset of compressed/uncompressed data in from the start of compressed data in the module.
    pub data_offset: u64,
    /// Where the offset is located.
    pub data_offset_flags: DataOffsetType,
    /// Size in bytes of compressed buffer in module.
    pub total_compressed_size: u32,
    /// Size in bytes of buffer to decompress into.
    pub total_uncompressed_size: u32,
    /// `MurmurHash3_x86_64` 32 bit hash of tag path.
    /// Referred to in-memory as "global tag id"
    /// Is set to -1 if file is resource.
    pub tag_id: i32,
    /// Size in bytes of header in decompressed buffer.
    pub uncompressed_header_size: u32,
    /// Size in bytes of actual tag data in decompressed buffer.
    pub uncompressed_tag_data_size: u32,
    /// Size in bytes of resource data in decompressed buffer.
    pub uncompressed_resource_data_size: u32,
    /// Size in bytes of "external" resource data in decompressed buffer. (for instance, havok data or bitmaps)
    pub uncompressed_actual_resource_size: u32,
    /// Power of 2 to align the header buffer to (ex w. 4 = align to a multiple of 16 bytes).
    pub header_alignment: u8,
    /// Power of 2 to align the tag data buffer to.
    pub tag_data_alignment: u8,
    /// Power of 2 to align the resource data buffer to.
    pub resource_data_alignment: u8,
    /// Power of 2 to align the actual resource data buffer to.
    pub actual_resource_data_alignment: u8,
    /// Offset where the name of the file is located in the string table.
    /// This is not read after [`ModuleVersion::Season3`].
    pub name_offset: u32,
    /// Used with resources to point back to the parent file. -1 = none
    pub parent_index: i32,
    /// `Murmur3_x64_128` hash of (what appears to be) the source file that this file was built from.
    /// This is not always the same thing as the file stored in the module.
    /// Only verified if the `HasBlocks` flag is not set.
    pub asset_hash: i128,
    /// Number of resources owned by the file.
    pub resource_count: i32,
    /// The payload with a read position, once it has been assembled.
    pub data_stream: Option<ByteReader>,
    /// The actual tag file read from the contents (including header), only valid if file is not a resource.
    pub tag_info: Option<TagFile>,
    /// Indicates if file is cached (has data stream) or not.
    pub is_loaded: bool,
    /// Name of the tag as specified in the module string list.
    /// Set to tag id if module version does not support names.
    pub tag_name: String,
}

impl Default for ModuleFileEntry {
    fn default() -> (r: Self)
        ensures
            r.data_stream is None,
            r.tag_info is None,
            !r.is_loaded,
            r.tag_name@.len() == 0,
            r.tag_group@.len() == 0,
            r.block_count == 0,
            r.tag_id == 0,
            r.parent_index == 0,
    {
        ModuleFileEntry {
            unknown: 0,
            flags: FileEntryFlags::default(),
            block_count: 0,
            block_index: 0,
            resource_index: 0,
            tag_group: String::new(),
            data_offset: 0,
            data_offset_flags: DataOffsetType::default(),
            total_compressed_size: 0,
            total_uncompressed_size: 0,
            tag_id: 0,
            uncompressed_header_size: 0,
            uncompressed_tag_data_size: 0,
            uncompressed_resource_data_size: 0,
            uncompressed_actual_resource_size: 0,
            header_alignment: 0,
            tag_data_alignment: 0,
            resource_data_alignment: 0,
            actual_resource_data_alignment: 0,
            name_offset: 0,
            parent_index: 0,
            asset_hash: 0,
            resource_count: 0,
            data_stream: None,
            tag_info: None,
            is_loaded: false,
            tag_name: String::new(),
        }
    }
}

/// The number of bytes that a file entry occupies, in either layout.
pub const FILE_ENTRY_LEN: u64 = 88;

impl ModuleFileEntry {
    /// Where the four bytes of the tag group stand inside an entry.
    pub open spec fn group_at(is_flight1: bool) -> int {
        if is_flight1 {
            20
        } else {
            12
        }
    }

    /// The tag group stored in the entry at `pos`, still in stored order, or
    /// the error where its bytes are not UTF-8.
    pub open spec fn stored_group(bytes: Seq<u8>, pos: int, is_flight1: bool) -> Result<
        Seq<char>,
    > {
        fixed_string(
            bytes.subrange(pos + Self::group_at(is_flight1), pos + Self::group_at(is_flight1) + 4),
        )
    }

    /// How reading an entry at `pos` ends.
    pub open spec fn read_outcome(bytes: Seq<u8>, pos: int, is_flight1: bool) -> Result<()> {
        if pos + Self::group_at(is_flight1) + 4 > bytes.len() {
            Err(eof())
        } else if Self::stored_group(bytes, pos, is_flight1) is Err {
            Err(Error::Utf8ReadingError)
        } else if is_flight1 {
            if pos + 80 > bytes.len() {
                Err(eof())
            } else if pos + 81 > u64::MAX {
                Err(Error::ReadError(ReadFailure::InvalidSeek))
            } else if pos + 83 > bytes.len() {
                Err(eof())
            } else if pos + FILE_ENTRY_LEN > u64::MAX {
                Err(Error::ReadError(ReadFailure::InvalidSeek))
            } else {
                Ok(())
            }
        } else {
            if pos + 84 > bytes.len() {
                Err(eof())
            } else if pos + FILE_ENTRY_LEN > u64::MAX {
                Err(Error::ReadError(ReadFailure::InvalidSeek))
            } else {
                Ok(())
            }
        }
    }

    /// Whether the stored fields of `self` are those of the entry encoded at
    /// `pos` in the layout from revision 51 on.
    pub open spec fn decoded_from_canonical(&self, bytes: Seq<u8>, pos: int) -> bool {
        &&& self.unknown == bytes[pos]
        &&& self.flags.bits == bytes[pos + 1] & 7
        &&& self.block_count == u16_at(bytes, pos + 2)
        &&& self.block_index == i32_at(bytes, pos + 4)
        &&& self.resource_index == i32_at(bytes, pos + 8)
        &&& Ok::<Seq<char>, Error>(self.tag_group@.reverse()) == Self::stored_group(
            bytes,
            pos,
            false,
        )
        &&& self.data_offset == offset_part(u64_at(bytes, pos + 16))
        &&& self.data_offset_flags.bits == flags_part(u64_at(bytes, pos + 16))
        &&& self.total_compressed_size == u32_at(bytes, pos + 24)
        &&& self.total_uncompressed_size == u32_at(bytes, pos + 28)
        &&& self.tag_id == i32_at(bytes, pos + 32)
        &&& self.uncompressed_header_size == u32_at(bytes, pos + 36)
        &&& self.uncompressed_tag_data_size == u32_at(bytes, pos + 40)
        &&& self.uncompressed_resource_data_size == u32_at(bytes, pos + 44)
        &&& self.uncompressed_actual_resource_size == u32_at(bytes, pos + 48)
        &&& self.header_alignment == bytes[pos + 52]
        &&& self.tag_data_alignment == bytes[pos + 53]
        &&& self.resource_data_alignment == bytes[pos + 54]
        &&& self.actual_resource_data_alignment == bytes[pos + 55]
        &&& self.name_offset == u32_at(bytes, pos + 56)
        &&& self.parent_index == i32_at(bytes, pos + 60)
        &&& self.asset_hash == i128_at(bytes, pos + 64)
        &&& self.resource_count == i32_at(bytes, pos + 80)
    }

    /// Whether the stored fields of `self` are those of the entry encoded at
    /// `pos` in the layout of revision 48.
    pub open spec fn decoded_from_flight1(&self, bytes: Seq<u8>, pos: int) -> bool {
        &&& self.name_offset == u32_at(bytes, pos)
        &&& self.parent_index == i32_at(bytes, pos + 4)
        &&& self.resource_count == u16_at(bytes, pos + 8)
        &&& self.block_count == u16_at(bytes, pos + 10)
        &&& self.resource_index == i32_at(bytes, pos + 12)
        &&& self.block_index == i32_at(bytes, pos + 16)
        &&& Ok::<Seq<char>, Error>(self.tag_group@.reverse()) == Self::stored_group(
            bytes,
            pos,
            true,
        )
        &&& self.data_offset == offset_part(u64_at(bytes, pos + 24))
        &&& self.data_offset_flags.bits == flags_part(u64_at(bytes, pos + 24))
        &&& self.total_compressed_size == u32_at(bytes, pos + 32)
        &&& self.total_uncompressed_size == u32_at(bytes, pos + 36)
        &&& self.asset_hash == i128_at(bytes, pos + 40)
        &&& self.tag_id == i32_at(bytes, pos + 56)
        &&& self.uncompressed_header_size == u32_at(bytes, pos + 60)
        &&& self.uncompressed_tag_data_size == u32_at(bytes, pos + 64)
        &&& self.uncompressed_resource_data_size == u32_at(bytes, pos + 68)
        &&& self.uncompressed_actual_resource_size == u32_at(bytes, pos + 72)
        &&& self.header_alignment == bytes[pos + 76]
        &&& self.tag_data_alignment == bytes[pos + 77]
        &&& self.resource_data_alignment == bytes[pos + 78]
        &&& self.actual_resource_data_alignment == bytes[pos + 79]
        &&& self.unknown == bytes[pos + 81]
        &&& self.flags.bits == bytes[pos + 82] & 7
    }

    /// Whether the stored fields of `self` are those of the entry encoded at
    /// `pos`.
    pub open spec fn decoded_from(&self, bytes: Seq<u8>, pos: int, is_flight1: bool) -> bool {
        if is_flight1 {
            self.decoded_from_flight1(bytes, pos)
        } else {
            self.decoded_from_canonical(bytes, pos)
        }
    }

    /// Whether `self` and `other` agree on the payload and the tag.
    pub open spec fn same_content(&self, other: &Self) -> bool {
        &&& self.data_stream == other.data_stream
        &&& self.tag_info == other.tag_info
        &&& self.is_loaded == other.is_loaded
    }

    /// Reads one entry of the table of files at the reader's position.
    /// Revision 48 stores the fields in another order, chosen by
    /// `is_flight1`. In both layouts the tag group is turned round.
    pub fn read(&mut self, reader: &mut ByteReader, is_flight1: bool) -> (r: Result<()>)
        ensures
            final(reader).bytes() == old(reader).bytes(),
            r == Self::read_outcome(old(reader).bytes(), old(reader).pos() as int, is_flight1),
            r is Ok ==> final(self).decoded_from(
                old(reader).bytes(),
                old(reader).pos() as int,
                is_flight1,
            ) && final(reader).pos() == old(reader).pos() + FILE_ENTRY_LEN,
            final(self).same_content(old(self)),
            final(self).tag_name == old(self).tag_name,
    {
        let ghost bytes = reader.bytes();
        let ghost pos = reader.pos() as int;
        if is_flight1 {
            self.name_offset = reader.read_u32()?;
            self.parent_index = reader.read_i32()?;
            let count: u16 = reader.read_u16()?;
            self.resource_count = count as i32;
            self.block_count = reader.read_u16()?;
            self.resource_index = reader.read_i32()?;
            self.block_index = reader.read_i32()?;
        } else {
            self.unknown = reader.read_u8()?;
            let bits: u8 = reader.read_u8()?;
            self.flags = FileEntryFlags::from_bits_truncate(bits);
            self.block_count = reader.read_u16()?;
            self.block_index = reader.read_i32()?;
            self.resource_index = reader.read_i32()?;
        }
        assert(reader.has(4) ==> reader.rest().take(4) =~= bytes.subrange(
            pos + Self::group_at(is_flight1),
            pos + Self::group_at(is_flight1) + 4,
        ));
        let stored: String = reader.read_fixed_string(4)?;
        self.tag_group = reversed(stored.as_str());
        assert(self.tag_group@.reverse() =~= stored@);
        let data_offset: u64 = reader.read_u64()?;
        let (offset, offset_flags) = split_data_offset(data_offset);
        self.data_offset = offset;
        self.data_offset_flags = offset_flags;
        self.total_compressed_size = reader.read_u32()?;
        self.total_uncompressed_size = reader.read_u32()?;
        if is_flight1 {
            self.asset_hash = reader.read_i128()?;
        }
        self.tag_id = reader.read_i32()?;
        self.uncompressed_header_size = reader.read_u32()?;
        self.uncompressed_tag_data_size = reader.read_u32()?;
        self.uncompressed_resource_data_size = reader.read_u32()?;
        self.uncompressed_actual_resource_size = reader.read_u32()?;
        self.header_alignment = reader.read_u8()?;
        self.tag_data_alignment = reader.read_u8()?;
        self.resource_data_alignment = reader.read_u8()?;
        self.actual_resource_data_alignment = reader.read_u8()?;
        if is_flight1 {
            reader.seek_relative(1)?;
            self.unknown = reader.read_u8()?;
            let bits: u8 = reader.read_u8()?;
            self.flags = FileEntryFlags::from_bits_truncate(bits);
            reader.seek_relative(1)?;
        } else {
            self.name_offset = reader.read_u32()?;
            self.parent_index = reader.read_i32()?;
            self.asset_hash = reader.read_i128()?;
            self.resource_count = reader.read_i32()?;
        }
        reader.seek_relative(4)?;
        Ok(())
    }
}

/// `data` with the bytes from `at` on replaced by `chunk`, as far as `data`
/// reaches.
pub open spec fn overlay(data: Seq<u8>, at: int, chunk: Seq<u8>) -> Seq<u8> {
    Seq::new(
        data.len(),
        |i: int|
            if at <= i < at + chunk.len() {
                chunk[i - at]
            } else {
                data[i]
            },
    )
}

/// Copies `chunk` over the bytes of `data` from `at` on.
pub fn copy_into(data: &mut Vec<u8>, at: usize, chunk: &Vec<u8>)
    requires
        at + chunk.len() <= old(data).len(),
    ensures
        final(data)@ == overlay(old(data)@, at as int, chunk@),
{
    let count: usize = chunk.len();
    let mut done: usize = 0;
    while done < count
        invariant
            done <= count,
            count == chunk.len(),
            at + count <= data.len(),
            data.len() == old(data).len(),
            forall|i: int|
                0 <= i < data.len() ==> data@[i] == if at <= i < at + done {
                    chunk@[i - at]
                } else {
                    old(data)@[i]
                },
        decreases count - done,
    {
        data.set(at + done, chunk[done]);
        done = done + 1;
    }
    assert(data@ =~= overlay(old(data)@, at as int, chunk@));
}

/// A payload that is being put together from the blocks of a file entry.
#[derive(Debug)]
pub struct PayloadAssembly {
    /// The payload as far as it has been filled. Bytes that no block has
    /// covered yet are zero.
    pub data: Vec<u8>,
    /// The number of steps that have been completed: blocks placed, or 1
    /// once the data of an entry without blocks is in place.
    pub placed: usize,
    /// Where the data of the file starts in the module it is read from.
    pub file_offset: u64,
}

/// What a [`PayloadAssembly`] holds, as mathematical values.
pub struct PayloadAssemblyView {
    pub data: Seq<u8>,
    pub placed: nat,
    pub file_offset: u64,
}

impl View for PayloadAssembly {
    type V = PayloadAssemblyView;

    open spec fn view(&self) -> PayloadAssemblyView {
        PayloadAssemblyView {
            data: self.data@,
            placed: self.placed as nat,
            file_offset: self.file_offset,
        }
    }
}

/// What has to happen next while a payload is put together.
#[derive(Debug)]
pub enum AssemblyStep {
    /// A block was placed and more are left: take the next step.
    Continue,
    /// The next block is compressed: decompress `input`, which should give
    /// `size` bytes, and hand what comes out to the next step.
    Decompress { input: Vec<u8>, size: usize },
    /// The payload is complete and stored in the file entry.
    Complete,
}

/// An [`AssemblyStep`] as mathematical values.
pub enum AssemblyStepView {
    Continue,
    Decompress { input: Seq<u8>, size: nat },
    Complete,
}

impl View for AssemblyStep {
    type V = AssemblyStepView;

    open spec fn view(&self) -> AssemblyStepView {
        match self {
            AssemblyStep::Continue => AssemblyStepView::Continue,
            AssemblyStep::Decompress { input, size } => AssemblyStepView::Decompress {
                input: input@,
                size: *size as nat,
            },
            AssemblyStep::Complete => AssemblyStepView::Complete,
        }
    }
}

/// What is handed to a step: the output of the decompressor, if any, as a
/// mathematical sequence.
pub open spec fn output_view(output: Option<Vec<u8>>) -> Option<Seq<u8>> {
    match output {
        Some(bytes) => Some(bytes@),
        None => None,
    }
}

/// Reads an uncompressed block at the reader's position into its place in
/// the payload: `compressed_size` bytes, from `decompressed_offset` on.
pub fn read_uncompressed_block(
    reader: &mut ByteReader,
    block: &ModuleBlockEntry,
    data: &mut Vec<u8>,
) -> (r: Result<()>)
    requires
        block.decompressed_offset + block.compressed_size <= old(data).len(),
    ensures
        final(reader).bytes() == old(reader).bytes(),
        match exact_at(
            old(reader).bytes(),
            old(reader).pos() as int,
            block.compressed_size as nat,
        ) {
            Ok((chunk, end)) => r is Ok && final(data)@ == overlay(
                old(data)@,
                block.decompressed_offset as int,
                chunk,
            ) && final(reader).pos() == end,
            Err(e) => r == Err::<(), Error>(e) && final(data)@ == old(data)@ && final(reader).pos() == old(reader).pos(),
        },
{
    let chunk: Vec<u8> = reader.read_exact(block.compressed_size as usize)?;
    copy_into(data, block.decompressed_offset as usize, &chunk);
    Ok(())
}

/// Reads the stored bytes of a compressed block at the reader's position:
/// what the decompressor has to be given.
pub fn read_compressed_block(reader: &mut ByteReader, block: &ModuleBlockEntry) -> (r: Result<
    Vec<u8>,
>)
    ensures
        final(reader).bytes() == old(reader).bytes(),
        match exact_at(
            old(reader).bytes(),
            old(reader).pos() as int,
            block.compressed_size as nat,
        ) {
            Ok((chunk, end)) => r is Ok && r->Ok_0@ == chunk && final(reader).pos() == end,
            Err(e) => r == Err::<Vec<u8>, Error>(e) && final(reader).pos() == old(reader).pos(),
        },
{
    reader.read_exact(block.compressed_size as usize)
}

/// The four characters of the tag group whose tags never carry a string
/// table.
pub open spec fn psod() -> Seq<char> {
    seq!['p', 's', 'o', 'd']
}

impl ModuleFileEntry {
    /// Where the data of the file starts in the module it is read from. In
    /// the primary module the entry's offset is counted from `data_offset`,
    /// the start of the file data. In the HD1 module `data_offset` is
    /// subtracted from the entry's offset.
    pub open spec fn source_offset(&self, data_offset: u64, uses_hd1: bool) -> int {
        if uses_hd1 {
            self.data_offset - data_offset
        } else {
            data_offset + self.data_offset
        }
    }

    /// The number of steps that assembling the payload takes: one for each
    /// block, or one where the entry has no blocks.
    pub open spec fn step_count(&self) -> nat {
        if self.block_count == 0 {
            1
        } else {
            self.block_count as nat
        }
    }

    /// Whether the single stretch of an entry without blocks is stored
    /// compressed: it is where the two total sizes differ.
    pub open spec fn single_is_compressed(&self) -> bool {
        self.total_compressed_size != self.total_uncompressed_size
    }

    /// Starts the assembly of the payload: a buffer of zeros of the size of
    /// the payload, and the offset of the file's data.
    pub fn start_read(&self, data_offset: u64, uses_hd1: bool) -> (r: PayloadAssembly)
        requires
            0 <= self.source_offset(data_offset, uses_hd1) <= u64::MAX,
        ensures
            r.data@.len() == self.total_uncompressed_size,
            forall|i: int| 0 <= i < r.data@.len() ==> r.data@[i] == 0,
            r.placed == 0,
            r.file_offset == self.source_offset(data_offset, uses_hd1),
    {
        let file_offset: u64 = if uses_hd1 {
            self.data_offset - data_offset
        } else {
            data_offset + self.data_offset
        };
        let data: Vec<u8> = vec![0u8; self.total_uncompressed_size as usize];
        PayloadAssembly { data, placed: 0, file_offset }
    }

    /// Whether the next step of an entry with blocks can be taken with
    /// `output` in hand. The block of the step has to exist, its stored
    /// bytes have to lie at a position that fits 64 bits, and its stretch
    /// has to lie inside the payload. The output of the decompressor is
    /// handed in for a compressed block only, and has the size that the
    /// block says.
    pub open spec fn block_step_ready(
        &self,
        state: PayloadAssemblyView,
        blocks: Seq<ModuleBlockEntry>,
        output: Option<Seq<u8>>,
    ) -> bool {
        &&& self.block_count != 0
        &&& state.placed < self.block_count
        &&& state.data.len() == self.total_uncompressed_size
        &&& self.block_index >= 0 ==> {
            let block = blocks[self.block_index + state.placed];
            &&& self.block_index + state.placed < blocks.len()
            &&& state.file_offset + block.compressed_offset <= u64::MAX
            &&& if block.is_compressed {
                output matches Some(bytes) ==> bytes.len() == block.decompressed_size
                    && block.decompressed_offset + block.decompressed_size
                    <= self.total_uncompressed_size
            } else {
                output is None && block.decompressed_offset + block.compressed_size
                    <= self.total_uncompressed_size
            }
        }
    }

    /// Whether the step of an entry without blocks can be taken with
    /// `output` in hand: the output of the decompressor is handed in only
    /// where the stored bytes are compressed.
    pub open spec fn single_step_ready(
        &self,
        state: PayloadAssemblyView,
        output: Option<Seq<u8>>,
    ) -> bool {
        &&& self.block_count == 0
        &&& state.placed == 0
        &&& output is Some ==> self.single_is_compressed()
    }

    /// Whether the next step can be taken with `output` in hand.
    pub open spec fn step_ready(
        &self,
        state: PayloadAssemblyView,
        blocks: Seq<ModuleBlockEntry>,
        output: Option<Seq<u8>>,
    ) -> bool {
        if self.block_count != 0 {
            self.block_step_ready(state, blocks, output)
        } else {
            self.single_step_ready(state, output)
        }
    }

    /// What follows a step that has brought the number of completed steps
    /// to `placed`.
    pub open spec fn after(&self, placed: nat) -> AssemblyStepView {
        if placed == self.step_count() {
            AssemblyStepView::Complete
        } else {
            AssemblyStepView::Continue
        }
    }

    /// One step for an entry with blocks, as a function of the state, the
    /// bytes of the module and what the decompressor handed back: the next
    /// state and what has to happen next, or the error.
    ///
    /// The step handles the block after those that are placed. A negative
    /// index of the first block is an error. An uncompressed block is copied
    /// from the module into its stretch, `compressed_size` bytes from
    /// `decompressed_offset` on. The stored bytes of a compressed block are
    /// handed out and the state stays; with the output of the decompressor
    /// in hand, the output is copied into the stretch.
    pub open spec fn block_step(
        &self,
        state: PayloadAssemblyView,
        blocks: Seq<ModuleBlockEntry>,
        source: Seq<u8>,
        output: Option<Seq<u8>>,
    ) -> Result<(PayloadAssemblyView, AssemblyStepView)> {
        if self.block_index < 0 {
            Err(Error::ModuleError(ModuleError::NegativeBlockIndex(self.block_index)))
        } else {
            let block = blocks[self.block_index + state.placed];
            match output {
                Some(bytes) => Ok(
                    (
                        PayloadAssemblyView {
                            data: overlay(state.data, block.decompressed_offset as int, bytes),
                            placed: state.placed + 1,
                            file_offset: state.file_offset,
                        },
                        self.after(state.placed + 1),
                    ),
                ),
                None => match exact_at(
                    source,
                    state.file_offset + block.compressed_offset,
                    block.compressed_size as nat,
                ) {
                    Err(e) => Err(e),
                    Ok((chunk, end)) => if block.is_compressed {
                        Ok(
                            (
                                state,
                                AssemblyStepView::Decompress {
                                    input: chunk,
                                    size: block.decompressed_size as nat,
                                },
                            ),
                        )
                    } else {
                        Ok(
                            (
                                PayloadAssemblyView {
                                    data: overlay(
                                        state.data,
                                        block.decompressed_offset as int,
                                        chunk,
                                    ),
                                    placed: state.placed + 1,
                                    file_offset: state.file_offset,
                                },
                                self.after(state.placed + 1),
                            ),
                        )
                    },
                },
            }
        }
    }

    /// The step for an entry without blocks, as a function of the state,
    /// the bytes of the module and what the decompressor handed back.
    ///
    /// The data is one stretch of `total_compressed_size` bytes at the
    /// file's offset. Where the two total sizes agree it is the payload.
    /// Where they differ it is handed out and the state stays; with the
    /// output of the decompressor in hand, the output is the payload,
    /// whatever its size.
    pub open spec fn single_step(
        &self,
        state: PayloadAssemblyView,
        source: Seq<u8>,
        output: Option<Seq<u8>>,
    ) -> Result<(PayloadAssemblyView, AssemblyStepView)> {
        match output {
            Some(bytes) => Ok(
                (
                    PayloadAssemblyView { data: bytes, placed: 1, file_offset: state.file_offset },
                    AssemblyStepView::Complete,
                ),
            ),
            None => match exact_at(
                source,
                state.file_offset as int,
                self.total_compressed_size as nat,
            ) {
                Err(e) => Err(e),
                Ok((chunk, end)) => if self.single_is_compressed() {
                    Ok(
                        (
                            state,
                            AssemblyStepView::Decompress {
                                input: chunk,
                                size: self.total_uncompressed_size as nat,
                            },
                        ),
                    )
                } else {
                    Ok(
                        (
                            PayloadAssemblyView {
                                data: chunk,
                                placed: 1,
                                file_offset: state.file_offset,
                            },
                            AssemblyStepView::Complete,
                        ),
                    )
                },
            },
        }
    }

    /// Where a step leaves the reader of the module that started at
    /// `before`. A step that is handed the output of the decompressor reads
    /// nothing, nor does one that finds a negative block index. Every other
    /// step seeks the stored bytes that it is about and stops behind them,
    /// or in front of them where they are not all there.
    pub open spec fn reader_after(
        &self,
        state: PayloadAssemblyView,
        blocks: Seq<ModuleBlockEntry>,
        source: Seq<u8>,
        output: Option<Seq<u8>>,
        before: u64,
    ) -> int {
        let (at, length) = if self.block_count != 0 {
            let block = blocks[self.block_index + state.placed];
            (state.file_offset + block.compressed_offset, block.compressed_size)
        } else {
            (state.file_offset as int, self.total_compressed_size)
        };
        if output is Some || (self.block_count != 0 && self.block_index < 0) {
            before as int
        } else if exact_at(source, at, length as nat) is Ok {
            at + length
        } else {
            at
        }
    }

    /// One step of the assembly, as a function of the state, the bytes of
    /// the module and what the decompressor handed back.
    pub open spec fn step(
        &self,
        state: PayloadAssemblyView,
        blocks: Seq<ModuleBlockEntry>,
        source: Seq<u8>,
        output: Option<Seq<u8>>,
    ) -> Result<(PayloadAssemblyView, AssemblyStepView)> {
        if self.block_count != 0 {
            self.block_step(state, blocks, source, output)
        } else {
            self.single_step(state, source, output)
        }
    }

    /// Whether the next step can be taken with `output` in hand, as
    /// [`Self::step_ready`] says.
    pub fn can_advance(
        &self,
        assembly: &PayloadAssembly,
        blocks: &Vec<ModuleBlockEntry>,
        output: &Option<Vec<u8>>,
    ) -> (r: bool)
        ensures
            r == self.step_ready(assembly@, blocks@, output_view(*output)),
    {
        if self.block_count == 0 {
            return assembly.placed == 0 && (output.is_none() || self.total_compressed_size
                != self.total_uncompressed_size);
        }
        if assembly.placed >= self.block_count as usize || assembly.data.len()
            != self.total_uncompressed_size as usize {
            return false;
        }
        if self.block_index < 0 {
            return true;
        }
        let first: usize = self.block_index as usize;
        if first >= blocks.len() || assembly.placed >= blocks.len() - first {
            return false;
        }
        let block: &ModuleBlockEntry = &blocks[first + assembly.placed];
        if block.compressed_offset as u64 > u64::MAX - assembly.file_offset {
            return false;
        }
        let total: u64 = self.total_uncompressed_size as u64;
        if block.is_compressed {
            match output {
                Some(bytes) => bytes.len() == block.decompressed_size as usize
                    && block.decompressed_offset as u64 + block.decompressed_size as u64 <= total,
                None => true,
            }
        } else {
            output.is_none() && block.decompressed_offset as u64 + block.compressed_size as u64
                <= total
        }
    }

    /// Takes one step for an entry with blocks, as [`Self::block_step`]
    /// says. An error leaves the assembly as it was.
    pub fn read_multiple_blocks(
        &self,
        assembly: &mut PayloadAssembly,
        reader: &mut ByteReader,
        blocks: &Vec<ModuleBlockEntry>,
        output: Option<Vec<u8>>,
    ) -> (r: Result<AssemblyStep>)
        requires
            self.block_step_ready(old(assembly)@, blocks@, output_view(output)),
        ensures
            final(reader).bytes() == old(reader).bytes(),
            final(reader).pos() == self.reader_after(
                old(assembly)@,
                blocks@,
                old(reader).bytes(),
                output_view(output),
                old(reader).pos(),
            ),
            match self.block_step(
                old(assembly)@,
                blocks@,
                old(reader).bytes(),
                output_view(output),
            ) {
                Ok((state, action)) => r is Ok && final(assembly)@ == state && r->Ok_0@ == action,
                Err(e) => r == Err::<AssemblyStep, Error>(e) && final(assembly)@ == old(assembly)@,
            },
    {
        if self.block_index < 0 {
            return Err(Error::ModuleError(ModuleError::NegativeBlockIndex(self.block_index)));
        }
        let first_block_index: usize = self.block_index as usize;
        let block: &ModuleBlockEntry = &blocks[first_block_index + assembly.placed];
        match output {
            Some(bytes) => {
                copy_into(&mut assembly.data, block.decompressed_offset as usize, &bytes);
            },
            None => {
                // Blocks need not follow one another in the module: each is sought.
                reader.seek(assembly.file_offset + block.compressed_offset as u64);
                if block.is_compressed {
                    let input: Vec<u8> = read_compressed_block(reader, block)?;
                    return Ok(
                        AssemblyStep::Decompress { input, size: block.decompressed_size as usize },
                    );
                }
                read_uncompressed_block(reader, block, &mut assembly.data)?;
            },
        }
        assembly.placed = assembly.placed + 1;
        if assembly.placed == self.block_count as usize {
            Ok(AssemblyStep::Complete)
        } else {
            Ok(AssemblyStep::Continue)
        }
    }

    /// Takes the step of an entry without blocks, as [`Self::single_step`]
    /// says. An error leaves the assembly as it was.
    pub fn read_single_block(
        &self,
        assembly: &mut PayloadAssembly,
        reader: &mut ByteReader,
        output: Option<Vec<u8>>,
    ) -> (r: Result<AssemblyStep>)
        requires
            self.single_step_ready(old(assembly)@, output_view(output)),
        ensures
            final(reader).bytes() == old(reader).bytes(),
            final(reader).pos() == self.reader_after(
                old(assembly)@,
                Seq::empty(),
                old(reader).bytes(),
                output_view(output),
                old(reader).pos(),
            ),
            match self.single_step(old(assembly)@, old(reader).bytes(), output_view(output)) {
                Ok((state, action)) => r is Ok && final(assembly)@ == state && r->Ok_0@ == action,
                Err(e) => r == Err::<AssemblyStep, Error>(e) && final(assembly)@ == old(assembly)@,
            },
    {
        match output {
            Some(bytes) => {
                assembly.data = bytes;
            },
            None => {
                reader.seek(assembly.file_offset);
                let block: Vec<u8> = reader.read_exact(self.total_compressed_size as usize)?;
                if self.total_compressed_size != self.total_uncompressed_size {
                    return Ok(
                        AssemblyStep::Decompress {
                            input: block,
                            size: self.total_uncompressed_size as usize,
                        },
                    );
                }
                assembly.data = block;
            },
        }
        assembly.placed = 1;
        Ok(AssemblyStep::Complete)
    }

    /// The version by whose rules the tag of this entry is read: tags of
    /// the group "psod" carry no string table in any version and are read
    /// as [`ModuleVersion::Season3`].
    pub open spec fn tag_version(&self, module_version: ModuleVersion) -> ModuleVersion {
        if self.tag_group@ == psod() {
            ModuleVersion::Season3
        } else {
            module_version
        }
    }

    /// Whether `self` and `other` agree on all that the table of entries
    /// stores.
    pub open spec fn same_record(&self, other: &Self) -> bool {
        &&& self.unknown == other.unknown
        &&& self.flags == other.flags
        &&& self.block_count == other.block_count
        &&& self.block_index == other.block_index
        &&& self.resource_index == other.resource_index
        &&& self.tag_group == other.tag_group
        &&& self.data_offset == other.data_offset
        &&& self.data_offset_flags == other.data_offset_flags
        &&& self.total_compressed_size == other.total_compressed_size
        &&& self.total_uncompressed_size == other.total_uncompressed_size
        &&& self.tag_id == other.tag_id
        &&& self.uncompressed_header_size == other.uncompressed_header_size
        &&& self.uncompressed_tag_data_size == other.uncompressed_tag_data_size
        &&& self.uncompressed_resource_data_size == other.uncompressed_resource_data_size
        &&& self.uncompressed_actual_resource_size == other.uncompressed_actual_resource_size
        &&& self.header_alignment == other.header_alignment
        &&& self.tag_data_alignment == other.tag_data_alignment
        &&& self.resource_data_alignment == other.resource_data_alignment
        &&& self.actual_resource_data_alignment == other.actual_resource_data_alignment
        &&& self.name_offset == other.name_offset
        &&& self.parent_index == other.parent_index
        &&& self.asset_hash == other.asset_hash
        &&& self.resource_count == other.resource_count
    }

    /// Whether the entry holds `data` as its payload, read as far as the
    /// tag's tables reach, and the tag that `data` starts with; for a raw
    /// file, the payload at its start and no tag.
    pub open spec fn holds_payload(&self, data: Seq<u8>, module_version: ModuleVersion) -> bool {
        &&& self.is_loaded
        &&& self.data_stream matches Some(stream)
        &&& stream.bytes() == data
        &&& if self.flags.has(RAW_FILE) {
            stream.pos() == 0 && self.tag_info is None
        } else {
            &&& TagFile::decode(data, 0, self.tag_version(module_version)) matches Ok((tag, end))
            &&& self.tag_info matches Some(tag_info)
            &&& tag_info@ == tag
            &&& stream.pos() == end
        }
    }

    /// Stores the assembled payload in the entry and, unless the entry is a
    /// raw file, reads the tag's header and tables from its start.
    ///
    /// Where the tag cannot be read, the error is returned; the entry then
    /// holds the payload, but no tag, and does not count as loaded.
    pub fn finish_read(&mut self, data: Vec<u8>, module_version: &ModuleVersion) -> (r: Result<()>)
        requires
            old(self).tag_info is None,
            !old(self).is_loaded,
        ensures
            final(self).same_record(old(self)),
            final(self).tag_name == old(self).tag_name,
            final(self).data_stream matches Some(stream) && stream.bytes() == data@,
            if old(self).flags.has(RAW_FILE) {
                r is Ok
            } else {
                match TagFile::decode(data@, 0, old(self).tag_version(*module_version)) {
                    Ok(_) => r is Ok,
                    Err(e) => r == Err::<(), Error>(e) && final(self).tag_info is None && !final(self).is_loaded,
                }
            },
            r is Ok ==> final(self).holds_payload(data@, *module_version),
    {
        let mut stream: ByteReader = ByteReader::new(data);
        if !self.flags.contains(RAW_FILE) {
            let mut tagfile: TagFile = TagFile::default();
            let is_psod: bool = self.tag_group == String::from_str("psod");
            proof {
                reveal_strlit("psod");
                assert("psod"@ =~= psod());
            }
            let outcome: Result<()> = if is_psod {
                // "psod" tags do not have string tables in any version.
                tagfile.read(&mut stream, &ModuleVersion::Season3)
            } else {
                tagfile.read(&mut stream, module_version)
            };
            self.data_stream = Some(stream);
            match outcome {
                Ok(()) => {
                    self.tag_info = Some(tagfile);
                },
                Err(e) => {
                    return Err(e);
                },
            }
        } else {
            self.data_stream = Some(stream);
        }
        self.is_loaded = true;
        Ok(())
    }

    /// Whether `self`, `after` and `r` are what a step leaves of the entry
    /// `before`, the state `state` and the output `output`: the entry after
    /// the step, the state after it, and what the step returned.
    ///
    /// An error of the step itself leaves entry and state as they were. A
    /// step that does not complete the payload changes the state alone. The
    /// step that completes it stores the payload in the entry; the entry
    /// then counts as loaded and holds the tag, unless the tag cannot be
    /// read, which is the error returned.
    pub open spec fn step_taken(
        &self,
        before: &ModuleFileEntry,
        state: PayloadAssemblyView,
        after: PayloadAssemblyView,
        blocks: Seq<ModuleBlockEntry>,
        source: Seq<u8>,
        module_version: ModuleVersion,
        output: Option<Seq<u8>>,
        r: Result<AssemblyStep>,
    ) -> bool {
        &&& self.same_record(before)
        &&& self.tag_name == before.tag_name
        &&& match before.step(state, blocks, source, output) {
            Err(e) => r == Err::<AssemblyStep, Error>(e) && after == state && self.same_content(
                before,
            ),
            Ok((next, action)) => if action is Complete {
                let tag = TagFile::decode(next.data, 0, before.tag_version(module_version));
                &&& after.placed == next.placed
                &&& after.file_offset == next.file_offset
                &&& self.data_stream matches Some(stream) && stream.bytes() == next.data
                &&& if before.flags.has(RAW_FILE) || tag is Ok {
                    r matches Ok(AssemblyStep::Complete) && self.holds_payload(
                        next.data,
                        module_version,
                    )
                } else {
                    r == Err::<AssemblyStep, Error>(tag->Err_0) && self.tag_info is None
                        && !self.is_loaded
                }
            } else {
                &&& r is Ok
                &&& r->Ok_0@ == action
                &&& after == next
                &&& self.same_content(before)
            },
        }
    }

    /// Takes the next step of the assembly of this entry's payload, as
    /// [`Self::step_taken`] says.
    ///
    /// `reader` holds the module that the data is read from, `blocks` the
    /// module's table of blocks. `output` is what the decompressor made of
    /// the input that the step before handed out, and `None` otherwise. With
    /// the last step the payload moves into the entry, and the tag at its
    /// start is read unless the entry is a raw file.
    pub fn advance_read(
        &mut self,
        assembly: &mut PayloadAssembly,
        reader: &mut ByteReader,
        blocks: &Vec<ModuleBlockEntry>,
        module_version: &ModuleVersion,
        output: Option<Vec<u8>>,
    ) -> (r: Result<AssemblyStep>)
        requires
            old(self).step_ready(old(assembly)@, blocks@, output_view(output)),
            old(self).tag_info is None,
            !old(self).is_loaded,
        ensures
            final(reader).bytes() == old(reader).bytes(),
            final(reader).pos() == old(self).reader_after(
                old(assembly)@,
                blocks@,
                old(reader).bytes(),
                output_view(output),
                old(reader).pos(),
            ),
            final(self).step_taken(
                old(self),
                old(assembly)@,
                final(assembly)@,
                blocks@,
                old(reader).bytes(),
                *module_version,
                output_view(output),
                r,
            ),
    {
        let step: AssemblyStep = if self.block_count != 0 {
            self.read_multiple_blocks(assembly, reader, blocks, output)?
        } else {
            self.read_single_block(assembly, reader, output)?
        };
        match step {
            AssemblyStep::Complete => {
                let mut data: Vec<u8> = Vec::new();
                core::mem::swap(&mut data, &mut assembly.data);
                self.finish_read(data, module_version)?;
                Ok(AssemblyStep::Complete)
            },
            other => Ok(other),
        }
    }
}

/// Trait for defining tag structures: records of a fixed size whose fields
/// stand at fixed offsets.
///
/// A structure is read in two passes. `read` fills the fields from the
/// record's own bytes and leaves the reader behind the record.
/// `load_field_blocks` then follows the fields that point elsewhere in the
/// tag: blocks, arrays, resources and data.
pub trait TagStructure: Sized {
    /// The size of a record in bytes. A structure that does not say
    /// otherwise leaves its size open.
    open spec fn spec_size() -> u64 {
        arbitrary()
    }

    /// Whether `self` holds what the record at `pos` of `bytes` stores, as
    /// far as `read` fills it. A structure that does not say otherwise
    /// leaves this open.
    open spec fn decoded_from(&self, bytes: Seq<u8>, pos: int) -> bool {
        arbitrary()
    }

    /// What reading comes to, as a function of what it is given: the
    /// structure as reading leaves it, the position at which it leaves the
    /// reader, and its result. The reader holds `bytes` and stands at
    /// `pos`. A structure that does not say otherwise leaves this open.
    open spec fn read_from(&self, bytes: Seq<u8>, pos: u64) -> (Self, u64, Result<()>) {
        arbitrary()
    }

    /// What loading what the fields point at comes to, as a function of
    /// what it is given: the structure as loading leaves it, the position
    /// at which it leaves the reader, and its result. The structure lies in
    /// the datablock `source_index`, as element `parent_index` of its
    /// block, at `adjusted_base`; the reader holds `bytes` and stands at
    /// `pos`. A structure that does not say otherwise leaves this open.
    open spec fn loaded(
        &self,
        source_index: i32,
        parent_index: nat,
        adjusted_base: u64,
        bytes: Seq<u8>,
        pos: u64,
        tag: crate::tag::loader::TagFileView,
    ) -> (Self, u64, Result<()>) {
        arbitrary()
    }

    /// Returns the size of the tag structure in bytes.
    fn size(&mut self) -> (r: u64)
        ensures
            r == Self::spec_size(),
            *final(self) == *old(self),
    ;

    /// Reads the fields of the record at the reader's position, each at its
    /// offset, and moves behind the record.
    fn read(&mut self, reader: &mut ByteReader) -> (r: Result<()>)
        ensures
            final(reader).bytes() == old(reader).bytes(),
            r is Ok ==> final(self).decoded_from(old(reader).bytes(), old(reader).pos() as int)
                && final(reader).pos() == old(reader).pos() + Self::spec_size(),
            (*final(self), final(reader).pos(), r) == old(self).read_from(
                old(reader).bytes(),
                old(reader).pos(),
            ),
    ;

    /// Returns the names of the fields with their offsets in the record.
    fn offsets(&self) -> Vec<(String, u64)>;

    /// Loads what the fields of the record point at. The record lies in the
    /// datablock `source_index`, as element `parent_index` of its block, at
    /// `adjusted_base` bytes from the start of the datablock.
    ///
    /// Blocks, arrays and resources are looked for at `adjusted_base` plus
    /// the offset of the field. The data fields take the data references of
    /// the datablock in the order in which they are declared, element by
    /// element: with `d` data fields in the record, the data field number
    /// `j` of the record takes the reference number `parent_index * d + j`.
    fn load_field_blocks(
        &mut self,
        source_index: i32,
        parent_index: usize,
        adjusted_base: u64,
        reader: &mut ByteReader,
        tag_file: &TagFile,
    ) -> (r: Result<()>)
        requires
            tag_file@.offsets_fit(),
        ensures
            final(reader).bytes() == old(reader).bytes(),
            forall|bytes: Seq<u8>, pos: int| #[trigger]
                old(self).decoded_from(bytes, pos) ==> final(self).decoded_from(bytes, pos),
            (*final(self), final(reader).pos(), r) == old(self).loaded(
                source_index,
                parent_index as nat,
                adjusted_base,
                old(reader).bytes(),
                old(reader).pos(),
                tag_file@,
            ),
    ;
}

/// What reading a structure from the tag data comes to, starting from the
/// structure `blank`: the structure is read at `offset`, and then loads
/// what its fields point at as element 0 of the datablock `target_index`,
/// at the start of that datablock, with the reader where reading left it.
/// The first of the two that fails gives the error.
pub open spec fn structure_read<T: TagStructure>(
    blank: T,
    bytes: Seq<u8>,
    offset: u64,
    tag: crate::tag::loader::TagFileView,
    target_index: i32,
) -> Result<T> {
    let (read, at, outcome) = blank.read_from(bytes, offset);
    match outcome {
        Err(e) => Err(e),
        Ok(_) => {
            let (loaded, end, result) = read.loaded(target_index, 0, 0, bytes, at, tag);
            match result {
                Err(e) => Err(e),
                Ok(_) => Ok(loaded),
            }
        },
    }
}

impl ModuleFileEntry {
    /// The struct definition that the metadata of the tag starts from: the
    /// first main struct.
    pub open spec fn main_struct(tag: crate::tag::loader::TagFileView) -> int {
        crate::tag::loader::first_index(tag.struct_definitions, crate::tag::loader::is_main(), 0)
    }

    /// Whether the metadata of the tag can be read: every position that a
    /// datablock gives fits 64 bits, and the main struct, where there is
    /// one, lies in a datablock that exists.
    pub open spec fn metadata_ready(&self) -> bool {
        self.data_stream is Some ==> (self.tag_info matches Some(tag_info) ==> {
            let tag = tag_info@;
            let main = Self::main_struct(tag);
            &&& tag.offsets_fit()
            &&& main < tag.struct_definitions.len() ==> 0 <= tag.struct_definitions[main].target_index
                < tag.datablock_definitions.len()
        })
    }

    /// Whether the metadata of the tag can be read, as
    /// [`Self::metadata_ready`] says.
    pub fn can_read_metadata(&self) -> (r: bool)
        ensures
            r == self.metadata_ready(),
    {
        if self.data_stream.is_none() {
            return true;
        }
        match &self.tag_info {
            None => true,
            Some(tag_info) => {
                if !tag_info.has_fitting_offsets() {
                    return false;
                }
                match tag_info.main_struct_index() {
                    None => true,
                    Some(main) => {
                        let target: i32 = tag_info.struct_definitions[main].target_index;
                        target >= 0 && (target as usize) < tag_info.datablock_definitions.len()
                    },
                }
            },
        }
    }

    /// How far reading the metadata gets before the structure itself is
    /// read: the errors that do not depend on the structure, in the order
    /// in which they are met, and else the offset of the main struct's
    /// datablock, at which the structure is read.
    pub open spec fn metadata_start(&self) -> Result<u64> {
        if self.data_stream is None {
            Err(Error::TagError(TagError::NotLoaded))
        } else if self.tag_info is None {
            Err(Error::TagError(TagError::NoTagInfo))
        } else {
            let tag = self.tag_info->Some_0@;
            let main = Self::main_struct(tag);
            if main >= tag.struct_definitions.len() {
                Err(Error::TagError(TagError::MainStructNotFound))
            } else {
                let offset = tag.datablock_definitions[tag.struct_definitions[main].target_index as int].offset;
                if offset > i64::MAX {
                    Err(Error::TryFromIntError)
                } else {
                    Ok(offset)
                }
            }
        }
    }

    /// Reads a structure of type `T` from the tag data.
    ///
    /// The bytes of the payload that are left behind the tag's tables are
    /// taken as the tag data. The structure is read at the offset of the
    /// datablock of the first main struct, and then loads what its fields
    /// point at.
    ///
    /// Fails with [`TagError::NotLoaded`] where the payload has not been
    /// assembled, with [`TagError::NoTagInfo`] where the entry has no tag,
    /// as raw files have none, and with [`TagError::MainStructNotFound`]
    /// where the tag has no main struct.
    pub fn read_metadata<T: Default + TagStructure>(&mut self) -> (r: Result<T>)
        requires
            old(self).metadata_ready(),
        ensures
            final(self).same_record(old(self)),
            final(self).tag_name == old(self).tag_name,
            final(self).tag_info == old(self).tag_info,
            final(self).is_loaded == old(self).is_loaded,
            final(self).data_stream is Some <==> old(self).data_stream is Some,
            final(self).data_stream matches Some(stream) ==> stream.bytes() == old(self).data_stream->Some_0.bytes() && stream.pos() == old(self).data_stream->Some_0.pos()
                + old(self).data_stream->Some_0.rest().len(),
            match old(self).metadata_start() {
                Err(e) => r == Err::<T, Error>(e),
                Ok(offset) => {
                    let tag = old(self).tag_info->Some_0@;
                    &&& r matches Ok(value) ==> value.decoded_from(
                        old(self).data_stream->Some_0.rest(),
                        offset as int,
                    )
                    &&& exists|blank: T| #[trigger]
                        call_ensures(T::default, (), blank) && r == structure_read(
                            blank,
                            old(self).data_stream->Some_0.rest(),
                            offset,
                            tag,
                            tag.struct_definitions[Self::main_struct(tag)].target_index,
                        )
                },
            },
    {
        let mut struct_type: T = T::default();
        let ghost blank = struct_type;
        let full_tag: Vec<u8> = match &mut self.data_stream {
            Some(stream) => stream.read_to_end(),
            None => {
                return Err(Error::TagError(TagError::NotLoaded));
            },
        };
        let tag_info: &TagFile = match &self.tag_info {
            Some(tag_info) => tag_info,
            None => {
                return Err(Error::TagError(TagError::NoTagInfo));
            },
        };
        let main: usize = match tag_info.main_struct_index() {
            Some(main) => main,
            None => {
                return Err(Error::TagError(TagError::MainStructNotFound));
            },
        };
        let target_index: i32 = tag_info.struct_definitions[main].target_index;
        let offset: u64 = tag_info.datablock_definitions[target_index as usize].offset;
        if offset > i64::MAX as u64 {
            return Err(Error::TryFromIntError);
        }
        let mut full_tag_reader: ByteReader = ByteReader::new(full_tag);
        full_tag_reader.seek_relative(offset as i64)?;
        proof {
            assert(call_ensures(T::default, (), blank));
        }
        match struct_type.read(&mut full_tag_reader) {
            Ok(_) => {},
            Err(e) => {
                return Err(e);
            },
        }
        match struct_type.load_field_blocks(target_index, 0, 0, &mut full_tag_reader, tag_info) {
            Ok(_) => {},
            Err(e) => {
                return Err(e);
            },
        }
        Ok(struct_type)
    }

    /// Reads data from the payload into a [`Vec<u8>`]: all of it where
    /// `include_header` is set, and else what follows the first
    /// `uncompressed_header_size` bytes. The payload's reader is left at
    /// its end.
    ///
    /// Fails with [`TagError::NotLoaded`] where the payload has not been
    /// assembled.
    pub fn get_raw_data(&mut self, include_header: bool) -> (r: Result<Vec<u8>>)
        ensures
            final(self).same_record(old(self)),
            final(self).tag_name == old(self).tag_name,
            final(self).tag_info == old(self).tag_info,
            final(self).is_loaded == old(self).is_loaded,
            match old(self).data_stream {
                None => r == Err::<Vec<u8>, Error>(Error::TagError(TagError::NotLoaded)) && final(self).data_stream is None,
                Some(stream) => {
                    &&& r is Ok
                    &&& r->Ok_0@ == if include_header {
                        stream.bytes()
                    } else {
                        rest_at(stream.bytes(), old(self).uncompressed_header_size as int)
                    }
                    &&& final(self).data_stream is Some
                    &&& final(self).data_stream->Some_0.bytes() == stream.bytes()
                    &&& final(self).data_stream->Some_0.pos() == if include_header {
                        stream.bytes().len() as int
                    } else {
                        old(self).uncompressed_header_size + r->Ok_0@.len()
                    }
                },
            },
    {
        match &mut self.data_stream {
            Some(data_stream) => {
                if include_header {
                    data_stream.rewind();
                    assert(data_stream.rest() =~= data_stream.bytes());
                } else {
                    data_stream.seek(self.uncompressed_header_size as u64);
                }
                Ok(data_stream.read_to_end())
            },
            None => Err(Error::TagError(TagError::NotLoaded)),
        }
    }
}

/// A raw file that has been read to the end holds its payload, but no
/// tag: its metadata cannot be read, and the error says so.
pub proof fn lemma_raw_file_has_no_metadata(
    file: &ModuleFileEntry,
    data: Seq<u8>,
    module_version: ModuleVersion,
)
    requires
        file.flags.has(RAW_FILE),
        file.holds_payload(data, module_version),
    ensures
        file.metadata_ready(),
        file.metadata_start() == Err::<u64, Error>(Error::TagError(TagError::NoTagInfo)),
{
}

impl ModuleFileEntry {
    /// What the step for the block number `k` of the entry places in the
    /// payload: the stored bytes of an uncompressed block, and for a
    /// compressed block `outputs[k]`, what the decompressor made of them.
    pub open spec fn chunk(
        &self,
        blocks: Seq<ModuleBlockEntry>,
        source: Seq<u8>,
        file_offset: u64,
        outputs: Seq<Seq<u8>>,
        k: int,
    ) -> Seq<u8> {
        let block = blocks[self.block_index + k];
        if block.is_compressed {
            outputs[k]
        } else {
            source.subrange(
                file_offset + block.compressed_offset,
                file_offset + block.compressed_offset + block.compressed_size,
            )
        }
    }

    /// The payload once the first `count` blocks of the entry are placed:
    /// zeros, overlaid with the chunk of each block in turn.
    pub open spec fn assembled(
        &self,
        blocks: Seq<ModuleBlockEntry>,
        source: Seq<u8>,
        file_offset: u64,
        outputs: Seq<Seq<u8>>,
        count: nat,
    ) -> Seq<u8>
        decreases count,
    {
        if count == 0 {
            Seq::new(self.total_uncompressed_size as nat, |i: int| 0u8)
        } else {
            overlay(
                self.assembled(blocks, source, file_offset, outputs, (count - 1) as nat),
                blocks[self.block_index + count - 1].decompressed_offset as int,
                self.chunk(blocks, source, file_offset, outputs, count - 1),
            )
        }
    }
}

/// A step that places a block takes the payload from what the blocks
/// before it have assembled to what they and the block have assembled: for
/// an uncompressed block the step that reads it, for a compressed block
/// the step that is handed the output of the decompressor.
pub proof fn lemma_step_assembles(
    entry: &ModuleFileEntry,
    blocks: Seq<ModuleBlockEntry>,
    source: Seq<u8>,
    outputs: Seq<Seq<u8>>,
    state: PayloadAssemblyView,
    output: Option<Seq<u8>>,
)
    requires
        entry.block_index >= 0,
        state.file_offset + blocks[entry.block_index + state.placed].compressed_offset
            + blocks[entry.block_index + state.placed].compressed_size <= source.len(),
        state.data == entry.assembled(blocks, source, state.file_offset, outputs, state.placed),
        if blocks[entry.block_index + state.placed].is_compressed {
            output == Some(outputs[state.placed as int])
        } else {
            output is None
        },
    ensures
        entry.block_step(state, blocks, source, output) is Ok,
        entry.block_step(state, blocks, source, output)->Ok_0.0.placed == state.placed + 1,
        entry.block_step(state, blocks, source, output)->Ok_0.0.data == entry.assembled(
            blocks,
            source,
            state.file_offset,
            outputs,
            state.placed + 1,
        ),
{
    let block = blocks[entry.block_index + state.placed];
    let at = state.file_offset + block.compressed_offset;
    assert(rest_at(source, at).take(block.compressed_size as int) =~= source.subrange(
        at,
        at + block.compressed_size,
    ));
}

/// Blocks that fill the payload exactly are found again in the assembled
/// payload, each in its own stretch: where every block places as many bytes
/// as its decompressed size says, the payload has the size that the entry
/// says, and each of its positions holds the byte of the one block that
/// fills it.
pub proof fn lemma_assembled_holds_every_block(
    entry: &ModuleFileEntry,
    blocks: Seq<ModuleBlockEntry>,
    source: Seq<u8>,
    file_offset: u64,
    outputs: Seq<Seq<u8>>,
)
    requires
        blocks_partition(
            blocks,
            entry.block_index as int,
            entry.block_count as nat,
            entry.total_uncompressed_size as nat,
        ),
        forall|k: int|
            0 <= k < entry.block_count ==> (#[trigger] entry.chunk(
                blocks,
                source,
                file_offset,
                outputs,
                k,
            )).len() == blocks[entry.block_index + k].decompressed_size,
    ensures
        entry.assembled(blocks, source, file_offset, outputs, entry.block_count as nat).len()
            == entry.total_uncompressed_size,
        forall|k: int, p: int|
            0 <= k < entry.block_count && stretch(blocks[entry.block_index + k]).contains(p)
                ==> #[trigger] entry.assembled(
                blocks,
                source,
                file_offset,
                outputs,
                entry.block_count as nat,
            )[p] == (#[trigger] entry.chunk(blocks, source, file_offset, outputs, k))[p
                - blocks[entry.block_index + k].decompressed_offset],
{
    lemma_assembled_upto(entry, blocks, source, file_offset, outputs, entry.block_count as nat);
}

/// What [`lemma_assembled_holds_every_block`] says, of the first `count`
/// blocks.
proof fn lemma_assembled_upto(
    entry: &ModuleFileEntry,
    blocks: Seq<ModuleBlockEntry>,
    source: Seq<u8>,
    file_offset: u64,
    outputs: Seq<Seq<u8>>,
    count: nat,
)
    requires
        count <= entry.block_count,
        blocks_partition(
            blocks,
            entry.block_index as int,
            entry.block_count as nat,
            entry.total_uncompressed_size as nat,
        ),
        forall|k: int|
            0 <= k < entry.block_count ==> (#[trigger] entry.chunk(
                blocks,
                source,
                file_offset,
                outputs,
                k,
            )).len() == blocks[entry.block_index + k].decompressed_size,
    ensures
        entry.assembled(blocks, source, file_offset, outputs, count).len()
            == entry.total_uncompressed_size,
        forall|k: int, p: int|
            0 <= k < count && stretch(blocks[entry.block_index + k]).contains(p)
                ==> #[trigger] entry.assembled(blocks, source, file_offset, outputs, count)[p]
                == (#[trigger] entry.chunk(blocks, source, file_offset, outputs, k))[p
                - blocks[entry.block_index + k].decompressed_offset],
    decreases count,
{
    if count > 0 {
        lemma_assembled_upto(entry, blocks, source, file_offset, outputs, (count - 1) as nat);
        let before = entry.assembled(blocks, source, file_offset, outputs, (count - 1) as nat);
        let last = blocks[entry.block_index + (count - 1)];
        let placed = entry.chunk(blocks, source, file_offset, outputs, count - 1);
        assert(placed.len() == last.decompressed_size);
        assert(last.decompressed_offset + last.decompressed_size
            <= entry.total_uncompressed_size);
        assert forall|k: int, p: int|
            0 <= k < count && stretch(blocks[entry.block_index + k]).contains(
                p,
            ) implies #[trigger] entry.assembled(blocks, source, file_offset, outputs, count)[p]
            == (#[trigger] entry.chunk(blocks, source, file_offset, outputs, k))[p
            - blocks[entry.block_index + k].decompressed_offset] by {
            let block = blocks[entry.block_index + k];
            assert(block.decompressed_offset + block.decompressed_size
                <= entry.total_uncompressed_size);
            if k < count - 1 {
                assert(stretch(blocks[entry.block_index + k]).disjoint(
                    stretch(blocks[entry.block_index + (count - 1)]),
                ));
                assert(!stretch(last).contains(p));
            }
        }
    }
}

} // verus!
