//! The tables of a tag, read from the start of a file's payload.
use crate::common::errors::{Error, Result};
use crate::common::extensions::{decode_run, exact_at, BufReaderExt, ByteReader};
use crate::module::header::ModuleVersion;
use crate::tag::data_reference::TagDataReference;
use crate::tag::datablock::{TagDataBlock, TagSectionType};
use crate::tag::dependency::TagDependency;
use crate::tag::header::{TagHeader, HEADER_LEN};
use crate::tag::structure::{TagStruct, TagStructType};
use vstd::prelude::*;

verus! {

/// Tag structure containing the header and the tables that describe the
/// layout of the tag's data.
#[derive(Debug)]
pub struct TagFile {
    /// Header containing info on how to read the other tables.
    pub header: TagHeader,
    /// Tags that this tag depends on.
    pub dependencies: Vec<TagDependency>,
    /// Blocks making up the entire tag data.
    pub datablock_definitions: Vec<TagDataBlock>,
    /// Internal structure units that make up the tag.
    pub struct_definitions: Vec<TagStruct>,
    /// References to the bytes of data fields.
    pub data_references: Vec<TagDataReference>,
    /// The zoneset section, as stored.
    pub zoneset: Vec<u8>,
    /// The string table, as stored. Empty from [`ModuleVersion::Season3`] on.
    pub string_table: Vec<u8>,
}

/// What a [`TagFile`] holds, as mathematical sequences.
pub struct TagFileView {
    pub header: TagHeader,
    pub dependencies: Seq<TagDependency>,
    pub datablock_definitions: Seq<TagDataBlock>,
    pub struct_definitions: Seq<TagStruct>,
    pub data_references: Seq<TagDataReference>,
    pub zoneset: Seq<u8>,
    pub string_table: Seq<u8>,
}

impl View for TagFile {
    type V = TagFileView;

    open spec fn view(&self) -> TagFileView {
        TagFileView {
            header: self.header,
            dependencies: self.dependencies@,
            datablock_definitions: self.datablock_definitions@,
            struct_definitions: self.struct_definitions@,
            data_references: self.data_references@,
            zoneset: self.zoneset@,
            string_table: self.string_table@,
        }
    }
}

impl Default for TagFile {
    fn default() -> (r: Self)
        ensures
            r@.dependencies.len() == 0,
            r@.datablock_definitions.len() == 0,
            r@.struct_definitions.len() == 0,
            r@.data_references.len() == 0,
            r@.zoneset.len() == 0,
            r@.string_table.len() == 0,
    {
        TagFile {
            header: TagHeader::default(),
            dependencies: Vec::new(),
            datablock_definitions: Vec::new(),
            struct_definitions: Vec::new(),
            data_references: Vec::new(),
            zoneset: Vec::new(),
            string_table: Vec::new(),
        }
    }
}

impl TagFile {
    /// Whether tags of a module of `version` carry a string table: they do
    /// up to revision 52.
    pub open spec fn has_string_table(version: ModuleVersion) -> bool {
        version.spec_number() <= 52
    }

    /// The tag encoded at `pos` and the position behind its tables, or the
    /// first error met. The header comes first; then the dependencies, the
    /// datablocks, the struct definitions and the data references, as many
    /// of each as the header says; then the zoneset; then, where the version
    /// has one, the string table.
    pub open spec fn decode(bytes: Seq<u8>, pos: int, version: ModuleVersion) -> Result<
        (TagFileView, int),
    > {
        match TagHeader::decode(bytes, pos) {
            Err(e) => Err(e),
            Ok(header) => match decode_run::<TagDependency>(
                bytes,
                pos + HEADER_LEN,
                header.dependency_count as nat,
            ) {
                Err(e) => Err(e),
                Ok((dependencies, at_blocks)) => match decode_run::<TagDataBlock>(
                    bytes,
                    at_blocks,
                    header.datablock_count as nat,
                ) {
                    Err(e) => Err(e),
                    Ok((datablock_definitions, at_structs)) => match decode_run::<TagStruct>(
                        bytes,
                        at_structs,
                        header.tagstruct_count as nat,
                    ) {
                        Err(e) => Err(e),
                        Ok((struct_definitions, at_references)) => match decode_run::<
                            TagDataReference,
                        >(bytes, at_references, header.data_reference_count as nat) {
                            Err(e) => Err(e),
                            Ok((data_references, at_zoneset)) => match exact_at(
                                bytes,
                                at_zoneset,
                                header.zoneset_size as nat,
                            ) {
                                Err(e) => Err(e),
                                Ok((zoneset, at_strings)) => match exact_at(
                                    bytes,
                                    at_strings,
                                    if Self::has_string_table(version) {
                                        header.string_table_size as nat
                                    } else {
                                        0
                                    },
                                ) {
                                    Err(e) => Err(e),
                                    Ok((string_table, end)) => Ok(
                                        (
                                            TagFileView {
                                                header,
                                                dependencies,
                                                datablock_definitions,
                                                struct_definitions,
                                                data_references,
                                                zoneset,
                                                string_table,
                                            },
                                            end,
                                        ),
                                    ),
                                },
                            },
                        },
                    },
                },
            },
        }
    }

    /// Reads the tag's header and tables at the reader's position.
    pub fn read(&mut self, reader: &mut ByteReader, version: &ModuleVersion) -> (r: Result<()>)
        ensures
            final(reader).bytes() == old(reader).bytes(),
            match Self::decode(old(reader).bytes(), old(reader).pos() as int, *version) {
                Ok((tag, end)) => r is Ok && final(self)@ == tag && final(reader).pos() == end,
                Err(e) => r == Err::<(), Error>(e),
            },
    {
        self.header.read(reader)?;
        self.dependencies = reader.read_enumerable::<TagDependency>(
            self.header.dependency_count as u64,
        )?;
        self.datablock_definitions = reader.read_enumerable::<TagDataBlock>(
            self.header.datablock_count as u64,
        )?;
        self.struct_definitions = reader.read_enumerable::<TagStruct>(
            self.header.tagstruct_count as u64,
        )?;
        self.data_references = reader.read_enumerable::<TagDataReference>(
            self.header.data_reference_count as u64,
        )?;
        self.zoneset = reader.read_exact(self.header.zoneset_size as usize)?;
        if version.number() <= 52 {
            self.string_table = reader.read_exact(self.header.string_table_size as usize)?;
        } else {
            self.string_table = Vec::new();
            assert(self.string_table@ =~= reader.rest().take(0));
        }
        Ok(())
    }
}

/// The first position from `from` on whose item satisfies `want`, or the
/// number of items where there is none.
pub open spec fn first_index<T>(items: Seq<T>, want: spec_fn(T) -> bool, from: int) -> int
    decreases items.len() - from,
{
    if from >= items.len() {
        items.len() as int
    } else if want(items[from]) {
        from
    } else {
        first_index(items, want, from + 1)
    }
}

/// The position of the reference number `ordinal`, counted from 0, among
/// the references from `from` on that lie in the datablock `parent`, or the
/// number of references where there are not that many.
pub open spec fn nth_reference(
    references: Seq<TagDataReference>,
    parent: i32,
    ordinal: nat,
    from: int,
) -> int
    decreases references.len() - from,
{
    if from >= references.len() {
        references.len() as int
    } else if references[from].field_block == parent {
        if ordinal == 0 {
            from
        } else {
            nth_reference(references, parent, (ordinal - 1) as nat, from + 1)
        }
    } else {
        nth_reference(references, parent, ordinal, from + 1)
    }
}

/// A datablock has no data reference with a number as large as the number
/// of references that are left.
pub proof fn lemma_no_reference_beyond(
    references: Seq<TagDataReference>,
    parent: i32,
    ordinal: nat,
    from: int,
)
    requires
        0 <= from <= references.len(),
        ordinal >= references.len() - from,
    ensures
        nth_reference(references, parent, ordinal, from) == references.len(),
    decreases references.len() - from,
{
    if from < references.len() {
        if references[from].field_block == parent {
            lemma_no_reference_beyond(references, parent, (ordinal - 1) as nat, from + 1);
        } else {
            lemma_no_reference_beyond(references, parent, ordinal, from + 1);
        }
    }
}

/// The sizes of the first `upto` datablocks that lie in the tag data
/// section, added up.
pub open spec fn tag_data_size(blocks: Seq<TagDataBlock>, upto: int) -> int
    decreases upto,
{
    if upto <= 0 {
        0
    } else {
        tag_data_size(blocks, upto - 1) + if blocks[upto - 1].section_type
            == TagSectionType::TagData {
            blocks[upto - 1].entry_size as int
        } else {
            0
        }
    }
}

/// The sum of the sizes grows with the number of datablocks that it covers.
pub proof fn lemma_tag_data_size_grows(blocks: Seq<TagDataBlock>, fewer: int, more: int)
    requires
        fewer <= more,
    ensures
        0 <= tag_data_size(blocks, fewer) <= tag_data_size(blocks, more),
    decreases more - fewer, more,
{
    if fewer < more {
        lemma_tag_data_size_grows(blocks, fewer, more - 1);
    } else if fewer > 0 {
        lemma_tag_data_size_grows(blocks, fewer - 1, fewer - 1);
    }
}

/// Whether a struct definition is the root of the block field that stands
/// at `collection_offset` in the datablock `current_block`: it names that
/// place and points at a datablock.
pub open spec fn roots_block(current_block: i32, collection_offset: u64) -> spec_fn(
    TagStruct,
) -> bool {
    |s: TagStruct|
        s.field_block == current_block && s.field_offset as u64 == collection_offset
            && s.target_index != -1
}

/// Whether a struct definition is the resource that stands at the offset
/// `adjusted_base`: it is of the kind "custom" and names that offset.
pub open spec fn roots_resource(adjusted_base: u64) -> spec_fn(TagStruct) -> bool {
    |s: TagStruct| s.struct_type == TagStructType::Custom && s.field_offset as u64 == adjusted_base
}

/// Whether a struct definition is a main struct.
pub open spec fn is_main() -> spec_fn(TagStruct) -> bool {
    |s: TagStruct| s.struct_type == TagStructType::MainStruct
}

impl TagFileView {
    /// The sizes of all datablocks of the tag data section, added up.
    pub open spec fn tag_data_total(&self) -> int {
        tag_data_size(self.datablock_definitions, self.datablock_definitions.len() as int)
    }

    /// Where the elements of a block field lie whose datablock is number
    /// `index`: at the datablock's offset, and for a datablock of the
    /// resource data section behind all the tag data.
    pub open spec fn payload_position(&self, index: int) -> int {
        let block = self.datablock_definitions[index];
        if block.section_type == TagSectionType::ResourceData {
            block.offset + self.tag_data_total()
        } else {
            block.offset as int
        }
    }

    /// Whether every position that a datablock gives fits 64 bits: its
    /// position in its section, and the position of its elements.
    pub open spec fn offsets_fit(&self) -> bool {
        &&& self.tag_data_total() <= u64::MAX
        &&& forall|i: int|
            0 <= i < self.datablock_definitions.len() ==> {
                &&& (#[trigger] self.datablock_definitions[i]).position(self.header) <= u64::MAX
                &&& self.payload_position(i) <= u64::MAX
            }
    }

    /// The datablock that holds the elements of the block field at
    /// `collection_offset` in the datablock `current_block`, if there is
    /// one: the target of the first struct definition that roots the field,
    /// where that is a datablock of the tag.
    pub open spec fn block_target(&self, current_block: i32, collection_offset: u64) -> Option<
        int,
    > {
        let root = first_index(
            self.struct_definitions,
            roots_block(current_block, collection_offset),
            0,
        );
        if root >= self.struct_definitions.len() {
            None
        } else if 0 <= self.struct_definitions[root].target_index
            < self.datablock_definitions.len() {
            Some(self.struct_definitions[root].target_index as int)
        } else {
            None
        }
    }

    /// Where the resource at the offset `adjusted_base` is read from.
    /// `Ok(None)` says that there is nothing to load: no struct definition
    /// of the kind "custom" stands at that offset, or its target is no
    /// datablock of the tag. A negative target is an error.
    pub open spec fn resource_position(&self, adjusted_base: u64) -> Result<Option<int>> {
        let root = first_index(self.struct_definitions, roots_resource(adjusted_base), 0);
        if root >= self.struct_definitions.len() {
            Ok(None)
        } else {
            let target = self.struct_definitions[root].target_index;
            if target < 0 {
                Err(Error::TryFromIntError)
            } else if target >= self.datablock_definitions.len() {
                Ok(None)
            } else {
                Ok(Some(self.datablock_definitions[target as int].position(self.header)))
            }
        }
    }

    /// The number of main structs among the struct definitions.
    pub open spec fn main_struct_count(&self) -> nat {
        count_main(self.struct_definitions, self.struct_definitions.len() as int)
    }
}

/// The number of main structs among the first `upto` struct definitions.
pub open spec fn count_main(structs: Seq<TagStruct>, upto: int) -> nat
    decreases upto,
{
    if upto <= 0 {
        0
    } else {
        count_main(structs, upto - 1) + if structs[upto - 1].struct_type
            == TagStructType::MainStruct {
            1nat
        } else {
            0nat
        }
    }
}

/// Up to the first main struct there is none, and behind it at least one.
pub proof fn lemma_count_main_before_first(structs: Seq<TagStruct>, upto: int)
    requires
        0 <= upto <= structs.len(),
    ensures
        upto <= first_index(structs, is_main(), 0) ==> count_main(structs, upto) == 0,
        upto > first_index(structs, is_main(), 0) ==> count_main(structs, upto) >= 1,
    decreases upto,
{
    if upto > 0 {
        lemma_count_main_before_first(structs, upto - 1);
        lemma_first_index_is_first(structs, is_main(), 0, upto - 1);
        assert(is_main()(structs[upto - 1]) == (structs[upto - 1].struct_type
            == TagStructType::MainStruct));
    } else {
        lemma_first_index_in_range(structs, is_main(), 0);
    }
}

/// No item between `from` and the first that satisfies `want` satisfies
/// it, and the first does.
pub proof fn lemma_first_index_is_first<T>(
    items: Seq<T>,
    want: spec_fn(T) -> bool,
    from: int,
    at: int,
)
    requires
        0 <= from <= at < items.len(),
    ensures
        from <= first_index(items, want, from) <= items.len(),
        at < first_index(items, want, from) ==> !want(items[at]),
        at == first_index(items, want, from) ==> want(items[at]),
    decreases items.len() - from,
{
    if !want(items[from]) && from < at {
        lemma_first_index_is_first(items, want, from + 1, at);
    } else if !want(items[from]) {
        lemma_first_index_in_range(items, want, from + 1);
    }
}

/// The first position that satisfies `want` lies between `from` and the
/// number of items.
pub proof fn lemma_first_index_in_range<T>(items: Seq<T>, want: spec_fn(T) -> bool, from: int)
    requires
        0 <= from <= items.len(),
    ensures
        from <= first_index(items, want, from) <= items.len(),
    decreases items.len() - from,
{
    if from < items.len() && !want(items[from]) {
        lemma_first_index_in_range(items, want, from + 1);
    }
}

/// Where a tag has exactly one main struct, it is the one that
/// [`TagFile::main_struct_index`] finds, and no other struct definition is
/// a main struct.
pub proof fn lemma_single_main_struct(tag: TagFileView)
    requires
        tag.main_struct_count() == 1,
    ensures
        ({
            let main = first_index(tag.struct_definitions, is_main(), 0);
            &&& 0 <= main < tag.struct_definitions.len()
            &&& tag.struct_definitions[main].struct_type == TagStructType::MainStruct
            &&& forall|j: int|
                0 <= j < tag.struct_definitions.len() && j != main
                    ==> (#[trigger] tag.struct_definitions[j]).struct_type
                    != TagStructType::MainStruct
        }),
{
    let structs = tag.struct_definitions;
    let main = first_index(structs, is_main(), 0);
    lemma_first_index_in_range(structs, is_main(), 0);
    lemma_count_main_before_first(structs, structs.len() as int);
    assert(main < structs.len());
    lemma_first_index_is_first(structs, is_main(), 0, main);
    assert forall|j: int| 0 <= j < structs.len() && j != main implies (#[trigger] structs[j]).struct_type
        != TagStructType::MainStruct by {
        if j < main {
            lemma_first_index_is_first(structs, is_main(), 0, j);
        } else if structs[j].struct_type == TagStructType::MainStruct {
            lemma_count_main_before_first(structs, j);
            lemma_count_main_grows(structs, j + 1, structs.len() as int);
        }
    }
}

/// The number of main structs grows with the number of struct definitions
/// that it covers.
pub proof fn lemma_count_main_grows(structs: Seq<TagStruct>, fewer: int, more: int)
    requires
        fewer <= more,
    ensures
        count_main(structs, fewer) <= count_main(structs, more),
    decreases more - fewer,
{
    if fewer < more {
        lemma_count_main_grows(structs, fewer, more - 1);
    }
}

impl TagFile {
    /// Whether every position that a datablock gives fits 64 bits, as
    /// [`TagFileView::offsets_fit`] says.
    pub fn has_fitting_offsets(&self) -> (r: bool)
        ensures
            r == self@.offsets_fit(),
    {
        let count: usize = self.datablock_definitions.len();
        let mut total: u64 = 0;
        let mut i: usize = 0;
        while i < count
            invariant
                i <= count,
                count == self.datablock_definitions@.len(),
                total == tag_data_size(self.datablock_definitions@, i as int),
            decreases count - i,
        {
            let block: &TagDataBlock = &self.datablock_definitions[i];
            if block.section_type == TagSectionType::TagData {
                if block.entry_size as u64 > u64::MAX - total {
                    proof {
                        lemma_tag_data_size_grows(
                            self.datablock_definitions@,
                            i + 1,
                            count as int,
                        );
                    }
                    return false;
                }
                total = total + block.entry_size as u64;
            }
            i = i + 1;
        }
        let mut k: usize = 0;
        while k < count
            invariant
                k <= count,
                count == self.datablock_definitions@.len(),
                total == self@.tag_data_total(),
                forall|j: int|
                    0 <= j < k ==> {
                        &&& (#[trigger] self.datablock_definitions@[j]).position(self.header)
                            <= u64::MAX
                        &&& self@.payload_position(j) <= u64::MAX
                    },
            decreases count - k,
        {
            let block: &TagDataBlock = &self.datablock_definitions[k];
            if block.checked_offset(self).is_none() {
                return false;
            }
            if block.section_type == TagSectionType::ResourceData && block.offset > u64::MAX
                - total {
                assert(self@.payload_position(k as int) > u64::MAX);
                return false;
            }
            k = k + 1;
        }
        true
    }

    /// The sizes of all datablocks of the tag data section, added up.
    pub fn tag_data_total(&self) -> (r: u64)
        requires
            self@.tag_data_total() <= u64::MAX,
        ensures
            r == self@.tag_data_total(),
    {
        let count: usize = self.datablock_definitions.len();
        let mut total: u64 = 0;
        let mut i: usize = 0;
        while i < count
            invariant
                i <= count,
                count == self.datablock_definitions@.len(),
                total == tag_data_size(self.datablock_definitions@, i as int),
                self@.tag_data_total() <= u64::MAX,
            decreases count - i,
        {
            let block: &TagDataBlock = &self.datablock_definitions[i];
            if block.section_type == TagSectionType::TagData {
                proof {
                    lemma_tag_data_size_grows(self.datablock_definitions@, i + 1, count as int);
                }
                total = total + block.entry_size as u64;
            }
            i = i + 1;
        }
        total
    }

    /// The first struct definition that roots the block field at
    /// `collection_offset` in the datablock `current_block`, if any.
    pub fn find_block_struct(&self, current_block: i32, collection_offset: u64) -> (r: Option<
        usize,
    >)
        ensures
            match r {
                Some(index) => index < self.struct_definitions@.len() && index == first_index(
                    self.struct_definitions@,
                    roots_block(current_block, collection_offset),
                    0,
                ),
                None => first_index(
                    self.struct_definitions@,
                    roots_block(current_block, collection_offset),
                    0,
                ) == self.struct_definitions@.len(),
            },
    {
        let ghost want = roots_block(current_block, collection_offset);
        let count: usize = self.struct_definitions.len();
        let mut i: usize = 0;
        while i < count
            invariant
                i <= count,
                count == self.struct_definitions@.len(),
                want == roots_block(current_block, collection_offset),
                first_index(self.struct_definitions@, want, 0) == first_index(
                    self.struct_definitions@,
                    want,
                    i as int,
                ),
            decreases count - i,
        {
            let s: &TagStruct = &self.struct_definitions[i];
            if s.field_block == current_block && s.field_offset as u64 == collection_offset
                && s.target_index != -1 {
                return Some(i);
            }
            i = i + 1;
        }
        None
    }

    /// The first struct definition of the kind "custom" that stands at the
    /// offset `adjusted_base`, if any.
    pub fn find_resource_struct(&self, adjusted_base: u64) -> (r: Option<usize>)
        ensures
            match r {
                Some(index) => index < self.struct_definitions@.len() && index == first_index(
                    self.struct_definitions@,
                    roots_resource(adjusted_base),
                    0,
                ),
                None => first_index(self.struct_definitions@, roots_resource(adjusted_base), 0)
                    == self.struct_definitions@.len(),
            },
    {
        let ghost want = roots_resource(adjusted_base);
        let count: usize = self.struct_definitions.len();
        let mut i: usize = 0;
        while i < count
            invariant
                i <= count,
                count == self.struct_definitions@.len(),
                want == roots_resource(adjusted_base),
                first_index(self.struct_definitions@, want, 0) == first_index(
                    self.struct_definitions@,
                    want,
                    i as int,
                ),
            decreases count - i,
        {
            let s: &TagStruct = &self.struct_definitions[i];
            if s.struct_type == TagStructType::Custom && s.field_offset as u64 == adjusted_base {
                return Some(i);
            }
            i = i + 1;
        }
        None
    }

    /// The number of main structs among the struct definitions. A tag as
    /// the game writes it has exactly one.
    pub fn count_main_structs(&self) -> (r: usize)
        ensures
            r == self@.main_struct_count(),
    {
        let count: usize = self.struct_definitions.len();
        let mut found: usize = 0;
        let mut i: usize = 0;
        while i < count
            invariant
                i <= count,
                count == self.struct_definitions@.len(),
                found == count_main(self.struct_definitions@, i as int),
                found <= i,
            decreases count - i,
        {
            if self.struct_definitions[i].struct_type == TagStructType::MainStruct {
                found = found + 1;
            }
            i = i + 1;
        }
        found
    }

    /// The first main struct among the struct definitions, if any.
    pub fn main_struct_index(&self) -> (r: Option<usize>)
        ensures
            match r {
                Some(index) => index < self.struct_definitions@.len() && index == first_index(
                    self.struct_definitions@,
                    is_main(),
                    0,
                ),
                None => first_index(self.struct_definitions@, is_main(), 0)
                    == self.struct_definitions@.len(),
            },
    {
        let ghost want = is_main();
        let count: usize = self.struct_definitions.len();
        let mut i: usize = 0;
        while i < count
            invariant
                i <= count,
                count == self.struct_definitions@.len(),
                want == is_main(),
                first_index(self.struct_definitions@, want, 0) == first_index(
                    self.struct_definitions@,
                    want,
                    i as int,
                ),
            decreases count - i,
        {
            if self.struct_definitions[i].struct_type == TagStructType::MainStruct {
                return Some(i);
            }
            i = i + 1;
        }
        None
    }

    /// The data reference number `ordinal`, counted from 0, among those
    /// that lie in the datablock `parent`, if there are that many.
    pub fn select_data_reference(&self, parent: i32, ordinal: usize) -> (r: Option<usize>)
        ensures
            match r {
                Some(index) => index < self.data_references@.len() && index == nth_reference(
                    self.data_references@,
                    parent,
                    ordinal as nat,
                    0,
                ),
                None => nth_reference(self.data_references@, parent, ordinal as nat, 0)
                    == self.data_references@.len(),
            },
    {
        let count: usize = self.data_references.len();
        let mut left: usize = ordinal;
        let mut i: usize = 0;
        while i < count
            invariant
                i <= count,
                count == self.data_references@.len(),
                nth_reference(self.data_references@, parent, ordinal as nat, 0) == nth_reference(
                    self.data_references@,
                    parent,
                    left as nat,
                    i as int,
                ),
            decreases count - i,
        {
            if self.data_references[i].field_block == parent {
                if left == 0 {
                    return Some(i);
                }
                left = left - 1;
            }
            i = i + 1;
        }
        None
    }

    /// Where the elements of a block field lie whose datablock is number
    /// `index`, as [`TagFileView::payload_position`] says.
    pub fn payload_offset(&self, index: usize) -> (r: u64)
        requires
            index < self.datablock_definitions@.len(),
            self@.offsets_fit(),
        ensures
            r == self@.payload_position(index as int),
    {
        let block: &TagDataBlock = &self.datablock_definitions[index];
        // Resource data follows all the tag data in the payload.
        if block.section_type == TagSectionType::ResourceData {
            let tagdata_size: u64 = self.tag_data_total();
            block.offset + tagdata_size
        } else {
            block.offset
        }
    }
}

} // verus!
