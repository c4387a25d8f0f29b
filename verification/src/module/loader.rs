//! Main abstraction file for modules.
use crate::common::endian::u32_at;
use crate::common::errors::{eof, Error, Result, TagError};
use crate::common::extensions::{decode_run, terminated_at, BufReaderExt, ByteReader};
use crate::common::text::{decimal, push_decimal, push_signed_decimal, signed_decimal};
use crate::module::block::ModuleBlockEntry;
use crate::module::file::{
    output_view, AssemblyStep, ModuleFileEntry, PayloadAssembly, DEBUG, FILE_ENTRY_LEN, USE_HD1,
};
use crate::module::header::{ModuleHeader, ModuleVersion};
use vstd::prelude::*;
use vstd::string::{StrSliceExecFns, StringExecFns};

verus! {

/// Module structure which contains the layout of the entire module file.
#[derive(Debug)]
pub struct ModuleFile {
    /// Information relating to how the other fields should be read.
    pub header: ModuleHeader,
    /// Metadata regarding compression and layout of files (tags).
    pub files: Vec<ModuleFileEntry>,
    /// Indices of resource files present in the module.
    pub resource_indices: Vec<u32>,
    /// Uncompressed/compressed blocks making up a file.
    pub blocks: Vec<ModuleBlockEntry>,
    /// Offset in the module where the string table starts.
    pub strings_offset: u64,
    /// Offset in the module where file data starts.
    pub file_data_offset: u64,
    /// The bytes of the module.
    pub file_handle: Option<ByteReader>,
    /// The bytes of the HD1 module, where there is one and the header asks for it.
    pub hd1_file: Option<ByteReader>,
    /// Whether to use the HD1 module or not.
    pub use_hd1: bool,
}

impl Default for ModuleFile {
    fn default() -> (r: Self)
        ensures
            r.files@.len() == 0,
            r.resource_indices@.len() == 0,
            r.blocks@.len() == 0,
            r.file_handle is None,
            r.hd1_file is None,
            !r.use_hd1,
    {
        ModuleFile {
            header: ModuleHeader::default(),
            files: Vec::new(),
            resource_indices: Vec::new(),
            blocks: Vec::new(),
            strings_offset: 0,
            file_data_offset: 0,
            file_handle: None,
            hd1_file: None,
            use_hd1: false,
        }
    }
}

/// How reading `count` file entries one after another from `start` ends:
/// with the first error met, if any.
pub open spec fn files_outcome(bytes: Seq<u8>, start: int, count: nat, is_flight1: bool) -> Result<
    (),
>
    decreases count,
{
    if count == 0 {
        Ok(())
    } else {
        match files_outcome(bytes, start, (count - 1) as nat, is_flight1) {
            Err(e) => Err(e),
            Ok(_) => ModuleFileEntry::read_outcome(
                bytes,
                start + FILE_ENTRY_LEN * (count - 1),
                is_flight1,
            ),
        }
    }
}

/// Entries that fail after `shorter` of them fail with the same error
/// however many more are asked for.
pub proof fn lemma_files_fail_later(
    bytes: Seq<u8>,
    start: int,
    shorter: nat,
    longer: nat,
    is_flight1: bool,
)
    requires
        shorter <= longer,
        files_outcome(bytes, start, shorter, is_flight1) is Err,
    ensures
        files_outcome(bytes, start, longer, is_flight1) == files_outcome(
            bytes,
            start,
            shorter,
            is_flight1,
        ),
    decreases longer,
{
    if shorter < longer {
        lemma_files_fail_later(bytes, start, shorter, (longer - 1) as nat, is_flight1);
    }
}

/// The position behind `position` that is a multiple of 4096. A position
/// that is a multiple already is moved on by 4096.
pub open spec fn aligned_after(position: int) -> int {
    (position / 0x1000 + 1) * 0x1000
}

/// Reads `count` file entries one after another at the reader's position.
pub fn read_files(reader: &mut ByteReader, count: u32, is_flight1: bool) -> (r: Result<
    Vec<ModuleFileEntry>,
>)
    ensures
        final(reader).bytes() == old(reader).bytes(),
        match files_outcome(old(reader).bytes(), old(reader).pos() as int, count as nat, is_flight1) {
            Err(e) => r == Err::<Vec<ModuleFileEntry>, Error>(e),
            Ok(_) => {
                &&& r is Ok
                &&& final(reader).pos() == old(reader).pos() + FILE_ENTRY_LEN * count
                &&& r->Ok_0@.len() == count
                &&& forall|i: int|
                    0 <= i < count ==> {
                        &&& (#[trigger] r->Ok_0@[i]).decoded_from(
                            old(reader).bytes(),
                            old(reader).pos() + FILE_ENTRY_LEN * i,
                            is_flight1,
                        )
                        &&& r->Ok_0@[i].data_stream is None
                        &&& r->Ok_0@[i].tag_info is None
                        &&& !r->Ok_0@[i].is_loaded
                        &&& r->Ok_0@[i].tag_name@.len() == 0
                    }
            },
        },
{
    let ghost bytes = reader.bytes();
    let ghost start = reader.pos() as int;
    let mut files: Vec<ModuleFileEntry> = Vec::new();
    let mut done: u32 = 0;
    while done < count
        invariant
            done <= count,
            bytes == old(reader).bytes(),
            start == old(reader).pos(),
            reader.bytes() == bytes,
            reader.pos() == start + FILE_ENTRY_LEN * done,
            files_outcome(bytes, start, done as nat, is_flight1) is Ok,
            files@.len() == done,
            forall|i: int|
                0 <= i < done ==> {
                    &&& (#[trigger] files@[i]).decoded_from(
                        bytes,
                        start + FILE_ENTRY_LEN * i,
                        is_flight1,
                    )
                    &&& files@[i].data_stream is None
                    &&& files@[i].tag_info is None
                    &&& !files@[i].is_loaded
                    &&& files@[i].tag_name@.len() == 0
                },
        decreases count - done,
    {
        let mut file: ModuleFileEntry = ModuleFileEntry::default();
        match file.read(reader, is_flight1) {
            Ok(()) => {},
            Err(e) => {
                proof {
                    lemma_files_fail_later(
                        bytes,
                        start,
                        (done + 1) as nat,
                        count as nat,
                        is_flight1,
                    );
                }
                return Err(e);
            },
        }
        files.push(file);
        done = done + 1;
    }
    Ok(files)
}

/// Reads `count` resource indices, 32 bits each, at the reader's position.
pub fn read_resource_indices(reader: &mut ByteReader, count: u32) -> (r: Result<Vec<u32>>)
    ensures
        final(reader).bytes() == old(reader).bytes(),
        if count > 0 && old(reader).pos() + 4 * count > old(reader).bytes().len() {
            r == Err::<Vec<u32>, Error>(eof())
        } else {
            &&& r is Ok
            &&& final(reader).pos() == old(reader).pos() + 4 * count
            &&& r->Ok_0@.len() == count
            &&& forall|k: int|
                0 <= k < count ==> #[trigger] r->Ok_0@[k] == u32_at(
                    old(reader).bytes(),
                    old(reader).pos() + 4 * k,
                )
        },
{
    let ghost bytes = reader.bytes();
    let ghost start = reader.pos() as int;
    let mut indices: Vec<u32> = Vec::new();
    let mut done: u32 = 0;
    while done < count
        invariant
            done <= count,
            bytes == old(reader).bytes(),
            start == old(reader).pos(),
            reader.bytes() == bytes,
            reader.pos() == start + 4 * done,
            done > 0 ==> start + 4 * done <= bytes.len(),
            indices@.len() == done,
            forall|k: int| 0 <= k < done ==> #[trigger] indices@[k] == u32_at(bytes, start + 4 * k),
        decreases count - done,
    {
        let index: u32 = reader.read_u32()?;
        indices.push(index);
        done = done + 1;
    }
    Ok(indices)
}

impl ModuleFile {
    /// Where the table of files starts: behind the header.
    pub open spec fn files_start(version: ModuleVersion) -> int {
        ModuleHeader::encoded_len(version)
    }

    /// Where the table of resource indices starts: behind the files and
    /// the string table.
    pub open spec fn resources_start(header: ModuleHeader) -> int {
        Self::files_start(header.version) + FILE_ENTRY_LEN * header.file_count
            + header.strings_size
    }

    /// Where the table of blocks starts: behind the resource indices.
    pub open spec fn blocks_start(header: ModuleHeader) -> int {
        Self::resources_start(header) + 4 * header.resource_count
    }

    /// How reading the module with the bytes `bytes` ends: with the first
    /// error met in the header, the files, the resource indices and the
    /// blocks, in this order.
    pub open spec fn read_outcome(bytes: Seq<u8>) -> Result<()> {
        let header = ModuleHeader::at(bytes, 0);
        match ModuleHeader::read_outcome(bytes, 0) {
            Err(e) => Err(e),
            Ok(_) => match files_outcome(
                bytes,
                Self::files_start(header.version),
                header.file_count as nat,
                header.version == ModuleVersion::Flight1,
            ) {
                Err(e) => Err(e),
                Ok(_) => if header.resource_count > 0 && Self::blocks_start(header)
                    > bytes.len() {
                    Err(eof())
                } else {
                    match decode_run::<ModuleBlockEntry>(
                        bytes,
                        Self::blocks_start(header),
                        header.block_count as nat,
                    ) {
                        Err(e) => Err(e),
                        Ok(_) => Ok(()),
                    }
                },
            },
        }
    }

    /// Whether `self` holds what the module with the bytes `bytes` stores:
    /// the header, a file entry for each file, without payload or name, the
    /// resource indices and the blocks, and the offset of the file data.
    pub open spec fn decoded_from(&self, bytes: Seq<u8>) -> bool {
        &&& self.header == ModuleHeader::at(bytes, 0)
        &&& self.files@.len() == self.header.file_count
        &&& forall|i: int|
            0 <= i < self.files@.len() ==> {
                &&& (#[trigger] self.files@[i]).decoded_from(
                    bytes,
                    Self::files_start(self.header.version) + FILE_ENTRY_LEN * i,
                    self.header.version == ModuleVersion::Flight1,
                )
                &&& self.files@[i].data_stream is None
                &&& self.files@[i].tag_info is None
                &&& !self.files@[i].is_loaded
                &&& self.files@[i].tag_name@.len() == 0
            }
        &&& self.strings_offset == Self::files_start(self.header.version) + FILE_ENTRY_LEN
            * self.header.file_count
        &&& self.resource_indices@.len() == self.header.resource_count
        &&& forall|k: int|
            0 <= k < self.resource_indices@.len() ==> #[trigger] self.resource_indices@[k]
                == u32_at(bytes, Self::resources_start(self.header) + 4 * k)
        &&& decode_run::<ModuleBlockEntry>(
            bytes,
            Self::blocks_start(self.header),
            self.header.block_count as nat,
        ) matches Ok((blocks, end))
        &&& self.blocks@ == blocks
        &&& self.file_data_offset == aligned_after(end)
        &&& self.file_handle matches Some(reader)
        &&& reader.bytes() == bytes
        &&& reader.pos() == self.file_data_offset
    }

    /// Takes the HD1 module into use where the header asks for one and
    /// `hd1` holds its bytes.
    pub fn open_hd1(&mut self, hd1: Option<Vec<u8>>)
        ensures
            final(self).header == old(self).header,
            final(self).files == old(self).files,
            final(self).resource_indices == old(self).resource_indices,
            final(self).blocks == old(self).blocks,
            final(self).strings_offset == old(self).strings_offset,
            final(self).file_data_offset == old(self).file_data_offset,
            final(self).file_handle == old(self).file_handle,
            if old(self).header.hd1_delta != 0 && hd1 is Some {
                &&& final(self).use_hd1
                &&& final(self).hd1_file matches Some(reader)
                &&& reader.bytes() == hd1->Some_0@
                &&& reader.pos() == 0
            } else {
                final(self).use_hd1 == old(self).use_hd1 && final(self).hd1_file == old(self).hd1_file
            },
    {
        if self.header.hd1_delta != 0 {
            match hd1 {
                Some(bytes) => {
                    self.use_hd1 = true;
                    self.hd1_file = Some(ByteReader::new(bytes));
                },
                None => {},
            }
        }
    }

    /// Reads the module from its bytes `archive`: the header, the table of
    /// files, the resource indices and the table of blocks. The string
    /// table between the files and the resource indices is passed over. The
    /// file data starts at the multiple of 4096 behind the blocks.
    ///
    /// `hd1` holds the bytes of the HD1 module where there is one beside
    /// the module; it is taken into use where the header asks for it.
    pub fn read(&mut self, archive: Vec<u8>, hd1: Option<Vec<u8>>) -> (r: Result<()>)
        requires
            archive@.len() <= isize::MAX,
        ensures
            r == Self::read_outcome(archive@),
            r is Ok ==> final(self).decoded_from(archive@),
            r is Ok ==> final(self).use_hd1 == (final(self).header.hd1_delta != 0 && hd1 is Some),
            r is Ok ==> if final(self).use_hd1 {
                final(self).hd1_file matches Some(reader) && reader.bytes() == hd1->Some_0@
            } else {
                final(self).hd1_file is None
            },
    {
        let ghost bytes = archive@;
        let mut reader: ByteReader = ByteReader::new(archive);
        self.header.read(&mut reader)?;
        self.hd1_file = None;
        self.use_hd1 = false;
        self.open_hd1(hd1);
        let is_flight1: bool = self.header.version.number() == 48;
        self.files = read_files(&mut reader, self.header.file_count, is_flight1)?;
        let strings_offset: u64 = reader.stream_position();
        self.strings_offset = strings_offset;
        reader.seek(strings_offset + self.header.strings_size as u64);
        self.resource_indices = read_resource_indices(&mut reader, self.header.resource_count)?;
        self.blocks = reader.read_enumerable::<ModuleBlockEntry>(self.header.block_count as u64)?;
        // Align to 0x?????000
        let stream_position: u64 = reader.stream_position();
        proof {
            lemma_run_ends_inside(
                bytes,
                Self::blocks_start(self.header),
                self.header.block_count as nat,
            );
        }
        reader.seek((stream_position / 0x1000 + 1) * 0x1000);
        self.file_data_offset = reader.stream_position();
        self.file_handle = Some(reader);
        Ok(())
    }
}

/// A run of blocks ends inside the bytes, or where it started.
pub proof fn lemma_run_ends_inside(bytes: Seq<u8>, pos: int, count: nat)
    requires
        decode_run::<ModuleBlockEntry>(bytes, pos, count) is Ok,
    ensures
        ({
            let end = decode_run::<ModuleBlockEntry>(bytes, pos, count)->Ok_0.1;
            end == pos + 20 * count && (count > 0 ==> end <= bytes.len())
        }),
    decreases count,
{
    if count > 0 {
        lemma_run_ends_inside(bytes, pos, (count - 1) as nat);
    }
}

/// The first position from `from` on at which `slots` names the file
/// `index`, or the number of slots where none does.
pub open spec fn first_match(slots: Seq<u32>, index: int, from: int) -> int
    decreases slots.len() - from,
{
    if from >= slots.len() {
        slots.len() as int
    } else if slots[from] == index {
        from
    } else {
        first_match(slots, index, from + 1)
    }
}

/// The path of a tag with an id of its own: group, id and group again.
pub open spec fn plain_path(group: Seq<char>, tag_id: int) -> Seq<char> {
    group + "/"@ + signed_decimal(tag_id) + "."@ + group
}

/// The path of the child number `child` of a parent that is a child itself.
pub open spec fn block_path(parent: Seq<char>, child: nat) -> Seq<char> {
    parent + "["@ + decimal(child) + ":block]"@
}

/// The path of the child number `child` of a parent that is a tag.
pub open spec fn resource_path(parent: Seq<char>, child: nat) -> Seq<char> {
    parent + "["@ + decimal(child) + ":resource]"@
}

/// Whether the parents that path synthesis follows exist: a file without
/// an id of its own whose parent index is not negative names a file of the
/// table, and the resources of that parent, where index and count are not
/// negative, lie inside the table of resource indices.
pub open spec fn links_valid(files: Seq<ModuleFileEntry>, resource_indices: Seq<u32>) -> bool {
    forall|i: int|
        0 <= i < files.len() && (#[trigger] files[i]).tag_id == -1 && files[i].parent_index >= 0
            ==> {
            let parent = files[files[i].parent_index as int];
            &&& files[i].parent_index < files.len()
            &&& parent.resource_index >= 0 && parent.resource_count >= 0
                ==> parent.resource_index + parent.resource_count <= resource_indices.len()
        }
}

/// The path of the file `index`, synthesized from the tables alone.
///
/// A file with an id has the path made of its group and id. A file without
/// an id and without a parent has the empty path. Otherwise the path is that
/// of the parent, followed by the position of the file among the parent's
/// resources: a parent without an id is followed up, and a parent with an
/// id contributes its name, or its path where it has no name yet. Following
/// parents deeper than three levels is an error.
#[verifier::opaque]
pub open spec fn tag_path(
    files: Seq<ModuleFileEntry>,
    resource_indices: Seq<u32>,
    index: int,
    depth: nat,
) -> Result<Seq<char>>
    decreases 4 - depth,
{
    if depth > 3 {
        Err(Error::TagError(TagError::RecursionDepth))
    } else {
        let file = files[index];
        if file.tag_id != -1 {
            Ok(plain_path(file.tag_group@, file.tag_id as int))
        } else if file.parent_index == -1 {
            Ok(Seq::empty())
        } else if file.parent_index < 0 {
            Err(Error::TryFromIntError)
        } else {
            let parent = files[file.parent_index as int];
            if parent.resource_index < 0 || parent.resource_count < 0 {
                Err(Error::TryFromIntError)
            } else {
                let slots = resource_indices.subrange(
                    parent.resource_index as int,
                    parent.resource_index + parent.resource_count,
                );
                let child = first_match(slots, index, 0) as nat;
                if parent.tag_id == -1 {
                    match tag_path(files, resource_indices, file.parent_index as int, depth + 1) {
                        Err(e) => Err(e),
                        Ok(parent_path) => Ok(block_path(parent_path, child)),
                    }
                } else if parent.tag_name@.len() > 0 {
                    Ok(resource_path(parent.tag_name@, child))
                } else {
                    match tag_path(files, resource_indices, file.parent_index as int, depth + 1) {
                        Err(e) => Err(e),
                        Ok(parent_path) => Ok(resource_path(parent_path, child)),
                    }
                }
            }
        }
    }
}

impl ModuleFile {
    /// Whether path synthesis can follow every parent: see [`links_valid`].
    pub fn has_valid_links(&self) -> (r: bool)
        ensures
            r == links_valid(self.files@, self.resource_indices@),
    {
        let count: usize = self.files.len();
        let slots: usize = self.resource_indices.len();
        let mut i: usize = 0;
        while i < count
            invariant
                i <= count,
                count == self.files@.len(),
                slots == self.resource_indices@.len(),
                forall|j: int|
                    0 <= j < i && (#[trigger] self.files@[j]).tag_id == -1
                        && self.files@[j].parent_index >= 0 ==> {
                        let parent = self.files@[self.files@[j].parent_index as int];
                        &&& self.files@[j].parent_index < self.files@.len()
                        &&& parent.resource_index >= 0 && parent.resource_count >= 0
                            ==> parent.resource_index + parent.resource_count
                            <= self.resource_indices@.len()
                    },
            decreases count - i,
        {
            let file: &ModuleFileEntry = &self.files[i];
            if file.tag_id == -1 && file.parent_index >= 0 {
                if file.parent_index as usize >= count {
                    return false;
                }
                let parent: &ModuleFileEntry = &self.files[file.parent_index as usize];
                if parent.resource_index >= 0 && parent.resource_count >= 0 {
                    if parent.resource_index as u64 + parent.resource_count as u64 > slots as u64 {
                        return false;
                    }
                }
            }
            i = i + 1;
        }
        true
    }

    /// The position of the file `index` among the `count` resource indices
    /// from `first` on: the number of indices before the first that names
    /// it, or `count` where none does.
    fn child_index(&self, first: usize, count: usize, index: usize) -> (r: usize)
        requires
            first + count <= self.resource_indices@.len(),
        ensures
            r == first_match(
                self.resource_indices@.subrange(first as int, first + count),
                index as int,
                0,
            ),
    {
        let ghost slots = self.resource_indices@.subrange(first as int, first + count);
        let total: usize = self.resource_indices.len();
        let mut k: usize = 0;
        while k < count
            invariant
                k <= count,
                first + count <= self.resource_indices@.len() == total,
                slots == self.resource_indices@.subrange(first as int, first + count),
                first_match(slots, index as int, 0) == first_match(slots, index as int, k as int),
            decreases count - k,
        {
            if self.resource_indices[first + k] as u64 == index as u64 {
                return k;
            }
            k = k + 1;
        }
        k
    }

    /// Gets the tag path of a file entry, as [`tag_path`] says.
    ///
    /// `depth` counts the parents that have been followed to get here; the
    /// path of a file of the table is asked for with depth 0.
    pub fn get_tag_path(&self, index: usize, depth: usize) -> (r: Result<String>)
        requires
            index < self.files@.len(),
            links_valid(self.files@, self.resource_indices@),
        ensures
            match tag_path(self.files@, self.resource_indices@, index as int, depth as nat) {
                Ok(path) => r is Ok && r->Ok_0@ == path,
                Err(e) => r == Err::<String, Error>(e),
            },
        decreases 4 - depth,
    {
        reveal(tag_path);
        if depth > 3 {
            return Err(Error::TagError(TagError::RecursionDepth));
        }
        let file: &ModuleFileEntry = &self.files[index];
        if file.tag_id != -1 {
            let mut path: String = file.tag_group.clone();
            path.append("/");
            push_signed_decimal(&mut path, file.tag_id);
            path.append(".");
            path.append(file.tag_group.as_str());
            return Ok(path);
        }
        if file.parent_index == -1 {
            return Ok(String::new());
        }
        if file.parent_index < 0 {
            return Err(Error::TryFromIntError);
        }
        let parent_index: usize = file.parent_index as usize;
        let parent: &ModuleFileEntry = &self.files[parent_index];
        if parent.resource_index < 0 || parent.resource_count < 0 {
            return Err(Error::TryFromIntError);
        }
        let child: usize = self.child_index(
            parent.resource_index as usize,
            parent.resource_count as usize,
            index,
        );
        if parent.tag_id == -1 {
            let mut path: String = self.get_tag_path(parent_index, depth + 1)?;
            path.append("[");
            push_decimal(&mut path, child as u64);
            path.append(":block]");
            Ok(path)
        } else {
            let mut path: String = if parent.tag_name.as_str().unicode_len() > 0 {
                parent.tag_name.clone()
            } else {
                self.get_tag_path(parent_index, depth + 1)?
            };
            path.append("[");
            push_decimal(&mut path, child as u64);
            path.append(":resource]");
            Ok(path)
        }
    }
}

/// How a tag read starts.
#[derive(Debug)]
pub enum TagRead {
    /// There is nothing to read: the file lies in a debug module, or in an
    /// HD1 module that is not at hand.
    Absent,
    /// The entry is handed out as it is: its payload is loaded already, or
    /// the module has no bytes to read from.
    Present,
    /// The payload has to be put together, starting from this state.
    Pending(PayloadAssembly),
}

/// The name that the string table holds for the file `index`: the
/// null-terminated string at the file's name offset, counted from
/// `strings_offset`.
pub open spec fn stored_name(
    bytes: Seq<u8>,
    strings_offset: int,
    files: Seq<ModuleFileEntry>,
    index: int,
) -> Result<Seq<char>> {
    terminated_at(bytes, strings_offset + files[index].name_offset)
}

/// Reads the name of each file from the string table, as [`stored_name`]
/// says, in index order.
pub fn read_names(
    files: &mut Vec<ModuleFileEntry>,
    reader: &mut ByteReader,
    strings_offset: u64,
) -> (r: Result<()>)
    requires
        strings_offset + u32::MAX <= u64::MAX,
    ensures
        final(reader).bytes() == old(reader).bytes(),
        final(files)@.len() == old(files)@.len(),
        forall|i: int|
            0 <= i < old(files)@.len() ==> (#[trigger] final(files)@[i]).same_record(
                &old(files)@[i],
            ) && final(files)@[i].same_content(&old(files)@[i]),
        r is Ok ==> forall|i: int|
            0 <= i < old(files)@.len() ==> stored_name(
                old(reader).bytes(),
                strings_offset as int,
                old(files)@,
                i,
            ) == Ok::<Seq<char>, Error>((#[trigger] final(files)@[i]).tag_name@),
        r is Err ==> exists|i: int|
            {
                &&& 0 <= i < old(files)@.len()
                &&& #[trigger] stored_name(
                    old(reader).bytes(),
                    strings_offset as int,
                    old(files)@,
                    i,
                ) == Err::<Seq<char>, Error>(r->Err_0)
                &&& forall|j: int|
                    0 <= j < i ==> (#[trigger] stored_name(
                        old(reader).bytes(),
                        strings_offset as int,
                        old(files)@,
                        j,
                    )) is Ok
            },
{
    let count: usize = files.len();
    let mut i: usize = 0;
    while i < count
        invariant
            i <= count,
            strings_offset + u32::MAX <= u64::MAX,
            reader.bytes() == old(reader).bytes(),
            files@.len() == old(files)@.len() == count,
            forall|j: int|
                0 <= j < count ==> (#[trigger] files@[j]).same_record(&old(files)@[j])
                    && files@[j].same_content(&old(files)@[j]),
            forall|j: int|
                0 <= j < i ==> stored_name(
                    old(reader).bytes(),
                    strings_offset as int,
                    old(files)@,
                    j,
                ) == Ok::<Seq<char>, Error>((#[trigger] files@[j]).tag_name@),
            forall|j: int|
                0 <= j < i ==> (#[trigger] stored_name(
                    old(reader).bytes(),
                    strings_offset as int,
                    old(files)@,
                    j,
                )) is Ok,
        decreases count - i,
    {
        reader.seek(strings_offset + files[i].name_offset as u64);
        match reader.read_null_terminated_string() {
            Ok(name) => {
                files[i].tag_name = name;
            },
            Err(e) => {
                assert(stored_name(
                    old(reader).bytes(),
                    strings_offset as int,
                    old(files)@,
                    i as int,
                ) == Err::<Seq<char>, Error>(e));
                return Err(e);
            },
        }
        i = i + 1;
    }
    Ok(())
}

impl ModuleFile {
    /// Synthesizes the path of every file from the tables, in index order.
    pub fn tag_paths(&self) -> (r: Result<Vec<String>>)
        requires
            links_valid(self.files@, self.resource_indices@),
        ensures
            r matches Ok(paths) ==> paths@.len() == self.files@.len() && forall|i: int|
                0 <= i < paths@.len() ==> tag_path(self.files@, self.resource_indices@, i, 0)
                    == Ok::<Seq<char>, Error>((#[trigger] paths@[i])@),
            r is Err ==> exists|i: int|
                {
                    &&& 0 <= i < self.files@.len()
                    &&& #[trigger] tag_path(self.files@, self.resource_indices@, i, 0) == Err::<
                        Seq<char>,
                        Error,
                    >(r->Err_0)
                    &&& forall|j: int|
                        0 <= j < i ==> (#[trigger] tag_path(
                            self.files@,
                            self.resource_indices@,
                            j,
                            0,
                        )) is Ok
                },
    {
        let count: usize = self.files.len();
        let mut paths: Vec<String> = Vec::new();
        let mut i: usize = 0;
        while i < count
            invariant
                i <= count,
                count == self.files@.len(),
                links_valid(self.files@, self.resource_indices@),
                paths@.len() == i,
                forall|j: int|
                    0 <= j < i ==> tag_path(self.files@, self.resource_indices@, j, 0) == Ok::<
                        Seq<char>,
                        Error,
                    >((#[trigger] paths@[j])@),
                forall|j: int|
                    0 <= j < i ==> (#[trigger] tag_path(
                        self.files@,
                        self.resource_indices@,
                        j,
                        0,
                    )) is Ok,
            decreases count - i,
        {
            match self.get_tag_path(i, 0) {
                Ok(path) => {
                    paths.push(path);
                },
                Err(e) => {
                    assert(tag_path(self.files@, self.resource_indices@, i as int, 0) == Err::<
                        Seq<char>,
                        Error,
                    >(e));
                    return Err(e);
                },
            }
            i = i + 1;
        }
        Ok(paths)
    }

    /// Gives every file its name.
    ///
    /// Up to revision 52 the names are read from the string table of the
    /// module. From revision 53 on there is none, and each file gets the
    /// path that [`tag_path`] synthesizes from the tables as they are before
    /// any name is set.
    pub fn resolve_names(&mut self) -> (r: Result<()>)
        requires
            old(self).file_handle is Some,
            old(self).strings_offset + u32::MAX <= u64::MAX,
            old(self).header.version.spec_number() >= 53 ==> links_valid(
                old(self).files@,
                old(self).resource_indices@,
            ),
        ensures
            final(self).header == old(self).header,
            final(self).resource_indices == old(self).resource_indices,
            final(self).blocks == old(self).blocks,
            final(self).strings_offset == old(self).strings_offset,
            final(self).file_data_offset == old(self).file_data_offset,
            final(self).hd1_file == old(self).hd1_file,
            final(self).use_hd1 == old(self).use_hd1,
            final(self).file_handle matches Some(reader) && reader.bytes() == old(self).file_handle->Some_0.bytes() && reader.pos() == old(self).file_handle->Some_0.pos(),
            final(self).files@.len() == old(self).files@.len(),
            forall|i: int|
                0 <= i < old(self).files@.len() ==> (#[trigger] final(self).files@[i]).same_record(
                    &old(self).files@[i],
                ) && final(self).files@[i].same_content(&old(self).files@[i]),
            r is Ok ==> forall|i: int|
                0 <= i < old(self).files@.len() ==> old(self).name_of(i) == Ok::<Seq<char>, Error>(
                    (#[trigger] final(self).files@[i]).tag_name@,
                ),
            r is Err ==> exists|i: int|
                {
                    &&& 0 <= i < old(self).files@.len()
                    &&& #[trigger] old(self).name_of(i) == Err::<Seq<char>, Error>(r->Err_0)
                    &&& forall|j: int| 0 <= j < i ==> (#[trigger] old(self).name_of(j)) is Ok
                },
    {
        let mut reader: ByteReader = match self.file_handle.take() {
            Some(reader) => reader,
            None => {
                return Ok(());
            },
        };
        let position: u64 = reader.stream_position();
        let ghost bytes = reader.bytes();
        let ghost files = self.files@;
        let ghost indices = self.resource_indices@;
        let ghost offset = self.strings_offset as int;
        let outcome: Result<()> = if self.header.version.number() <= 52 {
            read_names(&mut self.files, &mut reader, self.strings_offset)
        } else {
            match self.tag_paths() {
                Err(e) => Err(e),
                Ok(paths) => {
                    self.set_names(paths);
                    Ok(())
                },
            }
        };
        proof {
            if outcome is Err {
                let e = outcome->Err_0;
                if old(self).header.version.spec_number() <= 52 {
                    let i = choose|i: int|
                        {
                            &&& 0 <= i < files.len()
                            &&& #[trigger] stored_name(bytes, offset, files, i) == Err::<
                                Seq<char>,
                                Error,
                            >(e)
                            &&& forall|j: int|
                                0 <= j < i ==> (#[trigger] stored_name(bytes, offset, files, j))
                                    is Ok
                        };
                    assert(old(self).name_of(i) == Err::<Seq<char>, Error>(e));
                    assert forall|j: int| 0 <= j < i implies (#[trigger] old(self).name_of(j))
                        is Ok by {
                        assert(stored_name(bytes, offset, files, j) is Ok);
                    }
                } else {
                    let i = choose|i: int|
                        {
                            &&& 0 <= i < files.len()
                            &&& #[trigger] tag_path(files, indices, i, 0) == Err::<
                                Seq<char>,
                                Error,
                            >(e)
                            &&& forall|j: int|
                                0 <= j < i ==> (#[trigger] tag_path(files, indices, j, 0)) is Ok
                        };
                    assert(old(self).name_of(i) == Err::<Seq<char>, Error>(e));
                    assert forall|j: int| 0 <= j < i implies (#[trigger] old(self).name_of(j))
                        is Ok by {
                        assert(tag_path(files, indices, j, 0) is Ok);
                    }
                }
            }
        }
        reader.seek(position);
        self.file_handle = Some(reader);
        outcome
    }

    /// The name that [`Self::resolve_names`] gives the file `index`, or the
    /// error with which getting it fails.
    pub open spec fn name_of(&self, index: int) -> Result<Seq<char>> {
        if self.header.version.spec_number() <= 52 {
            stored_name(
                self.file_handle->Some_0.bytes(),
                self.strings_offset as int,
                self.files@,
                index,
            )
        } else {
            tag_path(self.files@, self.resource_indices@, index, 0)
        }
    }

    /// Gives each file the name of the same index in `names`.
    fn set_names(&mut self, names: Vec<String>)
        requires
            names@.len() == old(self).files@.len(),
        ensures
            final(self).header == old(self).header,
            final(self).resource_indices == old(self).resource_indices,
            final(self).blocks == old(self).blocks,
            final(self).strings_offset == old(self).strings_offset,
            final(self).file_data_offset == old(self).file_data_offset,
            final(self).file_handle == old(self).file_handle,
            final(self).hd1_file == old(self).hd1_file,
            final(self).use_hd1 == old(self).use_hd1,
            final(self).files@.len() == old(self).files@.len(),
            forall|i: int|
                0 <= i < old(self).files@.len() ==> {
                    &&& (#[trigger] final(self).files@[i]).same_record(&old(self).files@[i])
                    &&& final(self).files@[i].same_content(&old(self).files@[i])
                    &&& final(self).files@[i].tag_name@ == names@[i]@
                },
    {
        let count: usize = self.files.len();
        let mut i: usize = 0;
        while i < count
            invariant
                i <= count,
                count == names@.len(),
                self.header == old(self).header,
                self.resource_indices == old(self).resource_indices,
                self.blocks == old(self).blocks,
                self.strings_offset == old(self).strings_offset,
                self.file_data_offset == old(self).file_data_offset,
                self.file_handle == old(self).file_handle,
                self.hd1_file == old(self).hd1_file,
                self.use_hd1 == old(self).use_hd1,
                self.files@.len() == old(self).files@.len() == count,
                forall|j: int|
                    0 <= j < count ==> (#[trigger] self.files@[j]).same_record(&old(self).files@[j])
                        && self.files@[j].same_content(&old(self).files@[j]),
                forall|j: int| 0 <= j < i ==> (#[trigger] self.files@[j]).tag_name@ == names@[j]@,
            decreases count - i,
        {
            self.files[i].tag_name = names[i].clone();
            i = i + 1;
        }
    }
}

/// The position of the first file from `from` on whose tag id is `id`, or
/// the number of files where there is none.
pub open spec fn tag_position(files: Seq<ModuleFileEntry>, id: i32, from: int) -> int
    decreases files.len() - from,
{
    if from >= files.len() {
        files.len() as int
    } else if files[from].tag_id == id {
        from
    } else {
        tag_position(files, id, from + 1)
    }
}

impl ModuleFile {
    /// What the data offsets of files in the HD1 module are counted from:
    /// the header's HD1 delta, and twice the delta up to revision 52.
    pub open spec fn hd1_base(&self) -> int {
        if self.header.version.spec_number() <= 52 {
            2 * self.header.hd1_delta
        } else {
            self.header.hd1_delta as int
        }
    }

    /// Whether there is nothing to read for the file `index`: it lies in a
    /// debug module, or in the HD1 module and that is not at hand.
    pub open spec fn is_absent(&self, index: int) -> bool {
        let flags = self.files@[index].data_offset_flags;
        flags.has(DEBUG) || (flags.has(USE_HD1) && self.hd1_file is None)
    }

    /// Whether the file `index` is handed out as it is: it is loaded
    /// already, or the module has no bytes to read it from.
    pub open spec fn is_present(&self, index: int) -> bool {
        let file = self.files@[index];
        !self.is_absent(index) && (file.is_loaded || (!file.data_offset_flags.has(USE_HD1)
            && self.file_handle is None))
    }

    /// Where the data of the file `index` starts in the module that it is
    /// read from.
    pub open spec fn source_offset(&self, index: int) -> int {
        let file = self.files@[index];
        if file.data_offset_flags.has(USE_HD1) {
            file.source_offset(self.hd1_base() as u64, true)
        } else {
            file.source_offset(self.file_data_offset, false)
        }
    }

    /// Whether a read of the file `index` can start: the file exists, and
    /// where its payload has to be put together, the offset of its data is
    /// a position that fits 64 bits.
    pub open spec fn can_start(&self, index: int) -> bool {
        &&& 0 <= index < self.files@.len()
        &&& !self.is_absent(index) && !self.is_present(index) ==> {
            &&& self.files@[index].data_offset_flags.has(USE_HD1) ==> self.hd1_base() <= u64::MAX
            &&& 0 <= self.source_offset(index) <= u64::MAX
        }
    }

    /// Whether a read of the file `index` can start, as [`Self::can_start`]
    /// says.
    pub fn can_read_tag(&self, index: u32) -> (r: bool)
        ensures
            r == self.can_start(index as int),
    {
        if index as usize >= self.files.len() {
            return false;
        }
        let file: &ModuleFileEntry = &self.files[index as usize];
        if file.data_offset_flags.contains(DEBUG) {
            return true;
        }
        if file.data_offset_flags.contains(USE_HD1) {
            if self.hd1_file.is_none() || file.is_loaded {
                return true;
            }
            let delta: u64 = self.header.hd1_delta;
            if self.header.version.number() <= 52 {
                delta <= u64::MAX - delta && file.data_offset >= delta + delta
            } else {
                file.data_offset >= delta
            }
        } else {
            if self.file_handle.is_none() || file.is_loaded {
                return true;
            }
            file.data_offset <= u64::MAX - self.file_data_offset
        }
    }

    /// Starts reading the tag of the file `index`.
    ///
    /// A file in a debug module is not read, nor one in the HD1 module
    /// where that is not at hand: there is no result then, and no error. A
    /// file that is loaded already is handed out as it is. Otherwise the
    /// assembly of the payload starts: see [`Self::advance_tag`].
    pub fn read_tag(&self, index: u32) -> (r: TagRead)
        requires
            self.can_start(index as int),
        ensures
            r is Absent <==> self.is_absent(index as int),
            r is Present <==> self.is_present(index as int),
            r matches TagRead::Pending(assembly) ==> {
                &&& assembly.data@.len() == self.files@[index as int].total_uncompressed_size
                &&& forall|i: int| 0 <= i < assembly.data@.len() ==> assembly.data@[i] == 0
                &&& assembly.placed == 0
                &&& assembly.file_offset == self.source_offset(index as int)
            },
    {
        let file: &ModuleFileEntry = &self.files[index as usize];
        if file.data_offset_flags.contains(DEBUG) {
            // Debug modules are not read.
            return TagRead::Absent;
        }
        if file.data_offset_flags.contains(USE_HD1) {
            if self.hd1_file.is_none() {
                return TagRead::Absent;
            }
            if file.is_loaded {
                return TagRead::Present;
            }
            let mut offset: u64 = self.header.hd1_delta;
            if self.header.version.number() <= 52 {
                offset = offset + self.header.hd1_delta;
            }
            TagRead::Pending(file.start_read(offset, true))
        } else {
            if self.file_handle.is_none() || file.is_loaded {
                return TagRead::Present;
            }
            TagRead::Pending(file.start_read(self.file_data_offset, false))
        }
    }

    /// The bytes that the file `index` is read from: those of the HD1
    /// module where the file's data offset says so, else those of the
    /// module.
    pub open spec fn source_bytes(&self, index: int) -> Seq<u8> {
        if self.files@[index].data_offset_flags.has(USE_HD1) {
            self.hd1_file->Some_0.bytes()
        } else {
            self.file_handle->Some_0.bytes()
        }
    }

    /// The reader that the file `index` is read from.
    pub open spec fn source_reader(&self, index: int) -> ByteReader {
        if self.files@[index].data_offset_flags.has(USE_HD1) {
            self.hd1_file->Some_0
        } else {
            self.file_handle->Some_0
        }
    }

    /// Whether the next step of reading the file `index` can be taken with
    /// `output` in hand: the bytes to read from are at hand, the entry is
    /// not loaded yet, and the step is ready as
    /// [`ModuleFileEntry::step_ready`] says.
    pub open spec fn can_step(
        &self,
        index: int,
        assembly: &PayloadAssembly,
        output: Option<Seq<u8>>,
    ) -> bool {
        &&& 0 <= index < self.files@.len()
        &&& if self.files@[index].data_offset_flags.has(USE_HD1) {
            self.hd1_file is Some
        } else {
            self.file_handle is Some
        }
        &&& self.files@[index].tag_info is None
        &&& !self.files@[index].is_loaded
        &&& self.files@[index].step_ready(assembly@, self.blocks@, output)
    }

    /// Whether the next step of reading the file `index` can be taken, as
    /// [`Self::can_step`] says.
    pub fn can_advance_tag(
        &self,
        index: u32,
        assembly: &PayloadAssembly,
        output: &Option<Vec<u8>>,
    ) -> (r: bool)
        ensures
            r == self.can_step(index as int, assembly, output_view(*output)),
    {
        if index as usize >= self.files.len() {
            return false;
        }
        let file: &ModuleFileEntry = &self.files[index as usize];
        let at_hand: bool = if file.data_offset_flags.contains(USE_HD1) {
            self.hd1_file.is_some()
        } else {
            self.file_handle.is_some()
        };
        at_hand && file.tag_info.is_none() && !file.is_loaded && file.can_advance(
            assembly,
            &self.blocks,
            output,
        )
    }

    /// Takes the next step of reading the file `index`: places one block
    /// of its payload, or hands out the stored bytes of a compressed block.
    ///
    /// `output` is what the decompressor made of the bytes that the step
    /// before handed out, and `None` otherwise. The step that completes the
    /// payload stores it in the entry and reads the tag at its start. What
    /// the step does to the entry and the assembly is what
    /// [`ModuleFileEntry::step_taken`] says; nothing else changes.
    pub fn advance_tag(
        &mut self,
        index: u32,
        assembly: &mut PayloadAssembly,
        output: Option<Vec<u8>>,
    ) -> (r: Result<AssemblyStep>)
        requires
            old(self).can_step(index as int, old(assembly), output_view(output)),
        ensures
            final(self).header == old(self).header,
            final(self).resource_indices == old(self).resource_indices,
            final(self).blocks == old(self).blocks,
            final(self).strings_offset == old(self).strings_offset,
            final(self).file_data_offset == old(self).file_data_offset,
            final(self).use_hd1 == old(self).use_hd1,
            final(self).file_handle is Some <==> old(self).file_handle is Some,
            final(self).hd1_file is Some <==> old(self).hd1_file is Some,
            final(self).file_handle matches Some(reader) ==> reader.bytes() == old(self).file_handle->Some_0.bytes(),
            final(self).hd1_file matches Some(reader) ==> reader.bytes() == old(self).hd1_file->Some_0.bytes(),
            ({
                let file = old(self).files@[index as int];
                let after = file.reader_after(
                    old(assembly)@,
                    old(self).blocks@,
                    old(self).source_bytes(index as int),
                    output_view(output),
                    old(self).source_reader(index as int).pos(),
                );
                if file.data_offset_flags.has(USE_HD1) {
                    final(self).hd1_file->Some_0.pos() == after && final(self).file_handle == old(self).file_handle
                } else {
                    final(self).file_handle->Some_0.pos() == after && final(self).hd1_file == old(self).hd1_file
                }
            }),
            final(self).files@.len() == old(self).files@.len(),
            forall|j: int|
                0 <= j < old(self).files@.len() && j != index ==> final(self).files@[j] == old(self).files@[j],
            final(self).files@[index as int].step_taken(
                &old(self).files@[index as int],
                old(assembly)@,
                final(assembly)@,
                old(self).blocks@,
                old(self).source_bytes(index as int),
                old(self).header.version,
                output_view(output),
                r,
            ),
    {
        let uses_hd1: bool = self.files[index as usize].data_offset_flags.contains(USE_HD1);
        let taken: Option<ByteReader> = if uses_hd1 {
            self.hd1_file.take()
        } else {
            self.file_handle.take()
        };
        let mut reader: ByteReader = match taken {
            Some(reader) => reader,
            None => {
                return Ok(AssemblyStep::Continue);
            },
        };
        let outcome: Result<AssemblyStep> = self.files[index as usize].advance_read(
            assembly,
            &mut reader,
            &self.blocks,
            &self.header.version,
            output,
        );
        if uses_hd1 {
            self.hd1_file = Some(reader);
        } else {
            self.file_handle = Some(reader);
        }
        outcome
    }

    /// The index of the first file whose tag id is `global_id`, if any.
    pub fn find_tag(&self, global_id: i32) -> (r: Option<usize>)
        ensures
            match r {
                Some(index) => index < self.files@.len() && index == tag_position(
                    self.files@,
                    global_id,
                    0,
                ),
                None => tag_position(self.files@, global_id, 0) == self.files@.len(),
            },
    {
        let count: usize = self.files.len();
        let mut i: usize = 0;
        while i < count
            invariant
                i <= count,
                count == self.files@.len(),
                tag_position(self.files@, global_id, 0) == tag_position(
                    self.files@,
                    global_id,
                    i as int,
                ),
            decreases count - i,
        {
            if self.files[i].tag_id == global_id {
                return Some(i);
            }
            i = i + 1;
        }
        None
    }

    /// Starts reading the tag of the first file whose tag id is
    /// `global_id`, as [`Self::read_tag`] does, and says which file that is.
    /// Where no file has the id there is no result. An index that does not
    /// fit 32 bits is an error.
    pub fn read_tag_from_id(&self, global_id: i32) -> (r: Result<Option<(u32, TagRead)>>)
        requires
            tag_position(self.files@, global_id, 0) < self.files@.len() ==> self.can_start(
                tag_position(self.files@, global_id, 0),
            ),
        ensures
            ({
                let position = tag_position(self.files@, global_id, 0);
                if position == self.files@.len() {
                    r matches Ok(None)
                } else if position > u32::MAX {
                    r matches Err(Error::TryFromIntError)
                } else {
                    &&& r matches Ok(Some((index, read)))
                    &&& index == position
                    &&& read is Absent <==> self.is_absent(position)
                    &&& read is Present <==> self.is_present(position)
                    &&& read matches TagRead::Pending(assembly) ==> {
                        &&& assembly.data@.len() == self.files@[position].total_uncompressed_size
                        &&& forall|i: int|
                            0 <= i < assembly.data@.len() ==> assembly.data@[i] == 0
                        &&& assembly.placed == 0
                        &&& assembly.file_offset == self.source_offset(position)
                    }
                }
            }),
    {
        match self.find_tag(global_id) {
            Some(position) => {
                if position > u32::MAX as usize {
                    return Err(Error::TryFromIntError);
                }
                let index: u32 = position as u32;
                Ok(Some((index, self.read_tag(index))))
            },
            None => Ok(None),
        }
    }
}

/// Whether path synthesis goes from the file `index` on to its parent:
/// the file has no id, its parent index is not negative, and the parent's
/// resources have an index and a count that are not negative.
pub open spec fn follows_parent(files: Seq<ModuleFileEntry>, index: int) -> bool {
    &&& files[index].tag_id == -1
    &&& files[index].parent_index >= 0
    &&& files[files[index].parent_index as int].resource_index >= 0
    &&& files[files[index].parent_index as int].resource_count >= 0
}

/// The file that is reached from `index` by going to the parent `steps`
/// times.
pub open spec fn ancestor(files: Seq<ModuleFileEntry>, index: int, steps: nat) -> int
    decreases steps,
{
    if steps == 0 {
        index
    } else {
        files[ancestor(files, index, (steps - 1) as nat)].parent_index as int
    }
}

/// A chain of parents deeper than three levels, none of which has an id of
/// its own, cannot be followed: path synthesis ends with
/// [`TagError::RecursionDepth`].
pub proof fn lemma_deep_chain_fails(
    files: Seq<ModuleFileEntry>,
    resource_indices: Seq<u32>,
    index: int,
)
    requires
        forall|steps: nat|
            steps <= 3 ==> follows_parent(files, #[trigger] ancestor(files, index, steps)),
        forall|steps: nat|
            1 <= steps <= 4 ==> files[#[trigger] ancestor(files, index, steps)].tag_id == -1,
    ensures
        tag_path(files, resource_indices, index, 0) == Err::<Seq<char>, Error>(
            Error::TagError(TagError::RecursionDepth),
        ),
{
    reveal_with_fuel(tag_path, 5);
    reveal_with_fuel(ancestor, 5);
    let a0 = ancestor(files, index, 0);
    let a1 = ancestor(files, index, 1);
    let a2 = ancestor(files, index, 2);
    let a3 = ancestor(files, index, 3);
    let a4 = ancestor(files, index, 4);
    assert(follows_parent(files, a0));
    assert(follows_parent(files, a1));
    assert(follows_parent(files, a2));
    assert(follows_parent(files, a3));
    assert(files[a1].tag_id == -1);
    assert(files[a2].tag_id == -1);
    assert(files[a3].tag_id == -1);
    assert(files[a4].tag_id == -1);
    assert(tag_path(files, resource_indices, a4, 4) == Err::<Seq<char>, Error>(
        Error::TagError(TagError::RecursionDepth),
    ));
    assert(tag_path(files, resource_indices, a3, 3) == Err::<Seq<char>, Error>(
        Error::TagError(TagError::RecursionDepth),
    ));
    assert(tag_path(files, resource_indices, a2, 2) == Err::<Seq<char>, Error>(
        Error::TagError(TagError::RecursionDepth),
    ));
    assert(tag_path(files, resource_indices, a1, 1) == Err::<Seq<char>, Error>(
        Error::TagError(TagError::RecursionDepth),
    ));
}

/// The path of a file is a function of the table of files and the table
/// of resource indices and of nothing else: two modules that agree on these
/// tables give every file the same path, and asking again gives the same
/// path again.
pub proof fn lemma_tag_path_is_a_function_of_the_tables(
    one: &ModuleFile,
    other: &ModuleFile,
    index: int,
    depth: nat,
)
    requires
        one.files@ == other.files@,
        one.resource_indices@ == other.resource_indices@,
    ensures
        tag_path(one.files@, one.resource_indices@, index, depth) == tag_path(
            other.files@,
            other.resource_indices@,
            index,
            depth,
        ),
{
}

} // verus!
