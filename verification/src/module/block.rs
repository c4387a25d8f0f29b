//! Block table entries: where one stretch of a file's payload lies in the
//! module and whether it is compressed.
use crate::common::endian::u32_at;
use crate::common::errors::{eof, Error, ModuleError, Result};
use crate::common::extensions::{ByteReader, Enumerable};
use vstd::prelude::*;
use vstd::set_lib::{lemma_int_range, lemma_set_disjoint_lens, set_int_range};

verus! {

/// Represents a module block entry containing information related to Kraken compression.
/// It says how the bytes of one stretch of a file entry's payload are obtained.
#[derive(Debug, Clone, Copy, PartialEq, Eq, Structural)]
pub struct ModuleBlockEntry {
    /// Offset in bytes of the stored data, counted from the start of the file's data in the module.
    pub compressed_offset: u32,
    /// Size in bytes of the stored data.
    pub compressed_size: u32,
    /// Offset in bytes of the stretch inside the payload.
    pub decompressed_offset: u32,
    /// Size in bytes of the stretch inside the payload.
    pub decompressed_size: u32,
    /// Whether the stored data is compressed.
    /// Tags can be made up of both compressed and uncompressed blocks.
    pub is_compressed: bool,
}

impl Default for ModuleBlockEntry {
    fn default() -> (r: Self)
        ensures
            r == (ModuleBlockEntry {
                compressed_offset: 0,
                compressed_size: 0,
                decompressed_offset: 0,
                decompressed_size: 0,
                is_compressed: false,
            }),
    {
        ModuleBlockEntry {
            compressed_offset: 0,
            compressed_size: 0,
            decompressed_offset: 0,
            decompressed_size: 0,
            is_compressed: false,
        }
    }
}

impl Enumerable for ModuleBlockEntry {
    /// Twenty bytes: four 32-bit numbers and the compression marker, which
    /// has to be 0 or 1.
    open spec fn decode(bytes: Seq<u8>, pos: int) -> Result<(Self, int)> {
        if pos + 20 > bytes.len() {
            Err(eof())
        } else if u32_at(bytes, pos + 16) > 1 {
            Err(Error::ModuleError(ModuleError::IncorrectCompressedValue))
        } else {
            Ok(
                (
                    ModuleBlockEntry {
                        compressed_offset: u32_at(bytes, pos),
                        compressed_size: u32_at(bytes, pos + 4),
                        decompressed_offset: u32_at(bytes, pos + 8),
                        decompressed_size: u32_at(bytes, pos + 12),
                        is_compressed: u32_at(bytes, pos + 16) == 1,
                    },
                    pos + 20,
                ),
            )
        }
    }

    fn read(&mut self, reader: &mut ByteReader) -> (r: Result<()>) {
        self.compressed_offset = reader.read_u32()?;
        self.compressed_size = reader.read_u32()?;
        self.decompressed_offset = reader.read_u32()?;
        self.decompressed_size = reader.read_u32()?;
        let marker: u32 = reader.read_u32()?;
        if marker != 0 && marker != 1 {
            return Err(Error::ModuleError(ModuleError::IncorrectCompressedValue));
        }
        self.is_compressed = marker != 0;
        Ok(())
    }
}

/// The positions of the payload that a block fills: as many as its
/// decompressed size says, from its decompressed offset on.
pub open spec fn stretch(block: ModuleBlockEntry) -> Set<int> {
    set_int_range(
        block.decompressed_offset as int,
        block.decompressed_offset + block.decompressed_size,
    )
}

/// The decompressed sizes of the first `count` blocks from `first` on,
/// added up.
pub open spec fn decompressed_total(blocks: Seq<ModuleBlockEntry>, first: int, count: nat) -> int
    decreases count,
{
    if count == 0 {
        0
    } else {
        decompressed_total(blocks, first, (count - 1) as nat) + blocks[first + count
            - 1].decompressed_size
    }
}

/// The positions that the first `count` blocks from `first` on fill
/// between them.
pub open spec fn covered(blocks: Seq<ModuleBlockEntry>, first: int, count: nat) -> Set<int>
    decreases count,
{
    if count == 0 {
        Set::empty()
    } else {
        covered(blocks, first, (count - 1) as nat) + stretch(blocks[first + count - 1])
    }
}

/// Whether the `count` blocks from `first` on fill a payload of `total`
/// bytes exactly: none reaches beyond the payload, no two fill the same
/// position, and every position of the payload is filled.
pub open spec fn blocks_partition(
    blocks: Seq<ModuleBlockEntry>,
    first: int,
    count: nat,
    total: nat,
) -> bool {
    &&& forall|k: int|
        0 <= k < count ==> (#[trigger] blocks[first + k]).decompressed_offset + blocks[first
            + k].decompressed_size <= total
    &&& forall|j: int, k: int|
        0 <= j < k < count ==> stretch(#[trigger] blocks[first + j]).disjoint(
            stretch(#[trigger] blocks[first + k]),
        )
    &&& forall|p: int| 0 <= p < total ==> #[trigger] covered(blocks, first, count).contains(p)
}

/// A position that one of the first `count` blocks fills is among those
/// that they fill between them, and the other way round.
pub proof fn lemma_covered_contains(
    blocks: Seq<ModuleBlockEntry>,
    first: int,
    count: nat,
    p: int,
)
    ensures
        covered(blocks, first, count).contains(p) <==> exists|k: int|
            0 <= k < count && stretch(#[trigger] blocks[first + k]).contains(p),
    decreases count,
{
    if count > 0 {
        lemma_covered_contains(blocks, first, (count - 1) as nat, p);
        let last = blocks[first + count - 1];
        if covered(blocks, first, count).contains(p) {
            if stretch(last).contains(p) {
                assert(stretch(blocks[first + (count - 1)]).contains(p));
            } else {
                let k = choose|k: int|
                    0 <= k < count - 1 && stretch(#[trigger] blocks[first + k]).contains(p);
                assert(stretch(blocks[first + k]).contains(p));
            }
        }
        if exists|k: int| 0 <= k < count && stretch(#[trigger] blocks[first + k]).contains(p) {
            let k = choose|k: int|
                0 <= k < count && stretch(#[trigger] blocks[first + k]).contains(p);
            if k < count - 1 {
                assert(stretch(blocks[first + k]).contains(p));
            }
        }
    }
}

/// Blocks of which no two fill the same position fill as many positions as
/// their sizes add up to.
pub proof fn lemma_covered_len(blocks: Seq<ModuleBlockEntry>, first: int, count: nat)
    requires
        forall|j: int, k: int|
            0 <= j < k < count ==> stretch(#[trigger] blocks[first + j]).disjoint(
                stretch(#[trigger] blocks[first + k]),
            ),
    ensures
        covered(blocks, first, count).finite(),
        covered(blocks, first, count).len() == decompressed_total(blocks, first, count),
    decreases count,
{
    if count > 0 {
        let before = covered(blocks, first, (count - 1) as nat);
        let last = blocks[first + count - 1];
        lemma_covered_len(blocks, first, (count - 1) as nat);
        lemma_int_range(
            last.decompressed_offset as int,
            last.decompressed_offset + last.decompressed_size,
        );
        assert(before.disjoint(stretch(last))) by {
            assert forall|p: int| before.contains(p) implies !stretch(last).contains(p) by {
                lemma_covered_contains(blocks, first, (count - 1) as nat, p);
                let j = choose|j: int|
                    0 <= j < count - 1 && stretch(#[trigger] blocks[first + j]).contains(p);
                assert(stretch(blocks[first + j]).disjoint(stretch(blocks[first + (count - 1)])));
            }
        }
        lemma_set_disjoint_lens(before, stretch(last));
    }
}

/// Blocks that fill a payload exactly have decompressed sizes that add up
/// to the size of the payload.
pub proof fn lemma_partition_sums(
    blocks: Seq<ModuleBlockEntry>,
    first: int,
    count: nat,
    total: nat,
)
    requires
        blocks_partition(blocks, first, count, total),
    ensures
        decompressed_total(blocks, first, count) == total,
{
    lemma_covered_len(blocks, first, count);
    lemma_int_range(0, total as int);
    assert(covered(blocks, first, count) =~= set_int_range(0, total as int)) by {
        assert forall|p: int| covered(blocks, first, count).contains(p) == set_int_range(
            0,
            total as int,
        ).contains(p) by {
            lemma_covered_contains(blocks, first, count, p);
            if covered(blocks, first, count).contains(p) {
                let k = choose|k: int|
                    0 <= k < count && stretch(#[trigger] blocks[first + k]).contains(p);
                assert(blocks[first + k].decompressed_offset + blocks[first + k].decompressed_size
                    <= total);
            }
        }
    }
}

} // verus!
