use infinite_rs::common::errors::{
    DecompressionError, Error, ModuleError, ReadFailure, TagError,
};
use infinite_rs::common::extensions::ByteReader;
use infinite_rs::module::block::ModuleBlockEntry;
use infinite_rs::module::file::{
    copy_into, split_data_offset, AssemblyStep, DataOffsetType, FileEntryFlags, ModuleFileEntry,
    COMPRESSED, DEBUG, HAS_BLOCKS, RAW_FILE, USE_HD1,
};
use infinite_rs::module::header::{ModuleHeader, ModuleVersion, HEADER_MAGIC};
use infinite_rs::module::kraken::{decompress, scratch_buffer};
use infinite_rs::module::loader::{ModuleFile, TagRead};

/// The fields of a file entry that the fixtures set.
#[derive(Clone)]
struct Entry {
    flags: u8,
    block_count: u16,
    block_index: i32,
    resource_index: i32,
    group: [u8; 4],
    data_offset: u64,
    compressed: u32,
    uncompressed: u32,
    tag_id: i32,
    header_size: u32,
    name_offset: u32,
    parent_index: i32,
    resource_count: i32,
}

fn entry() -> Entry {
    Entry {
        flags: RAW_FILE,
        block_count: 0,
        block_index: 0,
        resource_index: 0,
        group: *b"mtib",
        data_offset: 0,
        compressed: 0,
        uncompressed: 0,
        tag_id: -1,
        header_size: 0,
        name_offset: 0,
        parent_index: -1,
        resource_count: 0,
    }
}

fn entry_bytes(e: &Entry) -> Vec<u8> {
    let mut b = Vec::new();
    b.push(0x5A);
    b.push(e.flags);
    b.extend_from_slice(&e.block_count.to_le_bytes());
    b.extend_from_slice(&e.block_index.to_le_bytes());
    b.extend_from_slice(&e.resource_index.to_le_bytes());
    b.extend_from_slice(&e.group);
    b.extend_from_slice(&e.data_offset.to_le_bytes());
    b.extend_from_slice(&e.compressed.to_le_bytes());
    b.extend_from_slice(&e.uncompressed.to_le_bytes());
    b.extend_from_slice(&e.tag_id.to_le_bytes());
    b.extend_from_slice(&e.header_size.to_le_bytes());
    b.extend_from_slice(&11u32.to_le_bytes());
    b.extend_from_slice(&12u32.to_le_bytes());
    b.extend_from_slice(&13u32.to_le_bytes());
    b.extend_from_slice(&[1, 2, 3, 4]);
    b.extend_from_slice(&e.name_offset.to_le_bytes());
    b.extend_from_slice(&e.parent_index.to_le_bytes());
    b.extend_from_slice(&(-7i128).to_le_bytes());
    b.extend_from_slice(&e.resource_count.to_le_bytes());
    b.extend_from_slice(&[0xEE; 4]);
    assert_eq!(b.len(), 88);
    b
}

fn header_bytes(
    version: i32,
    file_count: u32,
    strings_size: u32,
    resource_count: u32,
    block_count: u32,
    hd1_delta: u64,
) -> Vec<u8> {
    let mut b = Vec::new();
    b.extend_from_slice(b"mohd");
    b.extend_from_slice(&version.to_le_bytes());
    b.extend_from_slice(&0x0102_0304_0506_0708i64.to_le_bytes());
    b.extend_from_slice(&file_count.to_le_bytes());
    b.extend_from_slice(&(-1i32).to_le_bytes());
    b.extend_from_slice(&2i32.to_le_bytes());
    b.extend_from_slice(&3i32.to_le_bytes());
    b.extend_from_slice(&4i32.to_le_bytes());
    b.extend_from_slice(&strings_size.to_le_bytes());
    b.extend_from_slice(&resource_count.to_le_bytes());
    b.extend_from_slice(&block_count.to_le_bytes());
    b.extend_from_slice(&0xAABB_CCDD_EEFF_0011u64.to_le_bytes());
    b.extend_from_slice(&hd1_delta.to_le_bytes());
    b.extend_from_slice(&0x1000u64.to_le_bytes());
    if version >= 51 {
        b.extend_from_slice(&[0; 8]);
    }
    b
}

fn block_bytes(block: &ModuleBlockEntry) -> Vec<u8> {
    let mut b = Vec::new();
    b.extend_from_slice(&block.compressed_offset.to_le_bytes());
    b.extend_from_slice(&block.compressed_size.to_le_bytes());
    b.extend_from_slice(&block.decompressed_offset.to_le_bytes());
    b.extend_from_slice(&block.decompressed_size.to_le_bytes());
    b.extend_from_slice(&u32::from(block.is_compressed).to_le_bytes());
    b
}

/// The bytes of a module: header, files, strings, resource indices and
/// blocks, then zeros up to the start of the file data, then `data`.
fn module_bytes(
    version: i32,
    hd1_delta: u64,
    entries: &[Entry],
    strings: &[u8],
    resources: &[u32],
    blocks: &[ModuleBlockEntry],
    data: &[u8],
) -> Vec<u8> {
    let mut b = header_bytes(
        version,
        entries.len() as u32,
        strings.len() as u32,
        resources.len() as u32,
        blocks.len() as u32,
        hd1_delta,
    );
    for e in entries {
        b.extend_from_slice(&entry_bytes(e));
    }
    b.extend_from_slice(strings);
    for r in resources {
        b.extend_from_slice(&r.to_le_bytes());
    }
    for block in blocks {
        b.extend_from_slice(&block_bytes(block));
    }
    let start = (b.len() / 0x1000 + 1) * 0x1000;
    b.resize(start, 0);
    b.extend_from_slice(data);
    b
}

fn open(bytes: Vec<u8>, hd1: Option<Vec<u8>>) -> ModuleFile {
    let mut module = ModuleFile::default();
    module.read(bytes, hd1).unwrap();
    assert!(module.has_valid_links());
    module.resolve_names().unwrap();
    module
}

/// Stands in for the decompressor: every byte of the input twice.
fn doubled(input: &[u8]) -> Vec<u8> {
    input.iter().flat_map(|b| [*b, *b]).collect()
}

/// Reads the tag `index` to the end; counts the calls of the decompressor.
fn load(module: &mut ModuleFile, index: u32, calls: &mut usize) -> Result<bool, Error> {
    assert!(module.can_read_tag(index));
    let mut assembly = match module.read_tag(index) {
        TagRead::Absent => return Ok(false),
        TagRead::Present => return Ok(true),
        TagRead::Pending(assembly) => assembly,
    };
    let mut output: Option<Vec<u8>> = None;
    loop {
        assert!(module.can_advance_tag(index, &assembly, &output));
        match module.advance_tag(index, &mut assembly, output.take())? {
            AssemblyStep::Continue => {}
            AssemblyStep::Decompress { input, size } => {
                *calls += 1;
                let made = doubled(&input);
                assert_eq!(made.len(), size);
                output = Some(made);
            }
            AssemblyStep::Complete => return Ok(true),
        }
    }
}

fn payload(module: &mut ModuleFile, index: usize) -> Vec<u8> {
    module.files[index].get_raw_data(true).unwrap()
}

#[test]
fn header_with_wrong_magic_is_refused_after_four_bytes() {
    let mut bytes = header_bytes(53, 0, 0, 0, 0, 0);
    bytes[0] = b'x';
    let mut reader = ByteReader::new(bytes);
    let mut header = ModuleHeader::default();
    assert_eq!(
        header.read(&mut reader),
        Err(Error::ModuleError(ModuleError::IncorrectMagic(0x6468_6F78)))
    );
    assert_eq!(reader.stream_position(), 4);
}

#[test]
fn header_with_wrong_magic_and_wrong_version_reports_the_magic() {
    let mut bytes = header_bytes(7, 0, 0, 0, 0, 0);
    bytes[3] = 0;
    let mut module = ModuleFile::default();
    assert_eq!(
        module.read(bytes, None),
        Err(Error::ModuleError(ModuleError::IncorrectMagic(0x0068_6F6D)))
    );
}

#[test]
fn header_with_unknown_version_is_refused() {
    for version in [0, 47, 49, 50, 54, -1, i32::MAX] {
        let mut reader = ByteReader::new(header_bytes(version, 0, 0, 0, 0, 0));
        let mut header = ModuleHeader::default();
        assert_eq!(
            header.read(&mut reader),
            Err(Error::ModuleError(ModuleError::IncorrectVersion(version)))
        );
        assert_eq!(reader.stream_position(), 8);
    }
}

#[test]
fn header_versions_are_the_four_known_ones() {
    assert_eq!(ModuleVersion::try_from_primitive(48), Some(ModuleVersion::Flight1));
    assert_eq!(ModuleVersion::try_from_primitive(51), Some(ModuleVersion::Release));
    assert_eq!(
        ModuleVersion::try_from_primitive(52),
        Some(ModuleVersion::CampaignFlight)
    );
    assert_eq!(ModuleVersion::try_from_primitive(53), Some(ModuleVersion::Season3));
    assert_eq!(ModuleVersion::try_from_primitive(50), None);
    assert_eq!(ModuleVersion::Season3.number(), 53);
    assert_eq!(ModuleVersion::default(), ModuleVersion::Season3);
    assert!(ModuleVersion::Flight1 < ModuleVersion::Release);
    assert!(ModuleVersion::CampaignFlight < ModuleVersion::Season3);
    assert_eq!(HEADER_MAGIC.to_le_bytes(), *b"mohd");
}

#[test]
fn header_fields_are_read_in_order() {
    let mut reader = ByteReader::new(header_bytes(53, 5, 6, 7, 8, 9));
    let mut header = ModuleHeader::default();
    header.read(&mut reader).unwrap();
    assert_eq!(
        header,
        ModuleHeader {
            magic: HEADER_MAGIC,
            version: ModuleVersion::Season3,
            module_id: 0x0102_0304_0506_0708,
            file_count: 5,
            loadmanifest_index: -1,
            runtimeloadmetadata_index: 2,
            resourcemetadata_index: 3,
            resource_index: 4,
            strings_size: 6,
            resource_count: 7,
            block_count: 8,
            build_version: 0xAABB_CCDD_EEFF_0011,
            hd1_delta: 9,
            data_size: 0x1000,
        }
    );
    assert_eq!(reader.stream_position(), 80);
}

#[test]
fn header_of_the_first_flight_has_no_reserved_bytes() {
    let mut reader = ByteReader::new(header_bytes(48, 0, 0, 0, 0, 0));
    let mut header = ModuleHeader::default();
    header.read(&mut reader).unwrap();
    assert_eq!(header.version, ModuleVersion::Flight1);
    assert_eq!(reader.stream_position(), 72);
}

#[test]
fn header_reserved_bytes_need_not_be_there() {
    let mut bytes = header_bytes(51, 0, 0, 0, 0, 0);
    bytes.truncate(72);
    let mut reader = ByteReader::new(bytes.clone());
    let mut header = ModuleHeader::default();
    assert_eq!(header.read(&mut reader), Ok(()));
    assert_eq!(reader.stream_position(), 80);
    bytes.truncate(71);
    let mut reader = ByteReader::new(bytes);
    assert_eq!(
        header.read(&mut reader),
        Err(Error::ReadError(ReadFailure::UnexpectedEof))
    );
}

#[test]
fn reversed_group_code() {
    let mut e = entry();
    e.group = *b"mat ";
    let mut reader = ByteReader::new(entry_bytes(&e));
    let mut file = ModuleFileEntry::default();
    file.read(&mut reader, false).unwrap();
    assert_eq!(file.tag_group, " tam");
    e.group = *b" tam";
    let mut reader = ByteReader::new(entry_bytes(&e));
    file.read(&mut reader, false).unwrap();
    assert_eq!(file.tag_group, "mat ");
}

#[test]
fn group_of_four_ff_bytes_is_empty() {
    let mut e = entry();
    e.group = [0xFF; 4];
    let mut reader = ByteReader::new(entry_bytes(&e));
    let mut file = ModuleFileEntry::default();
    file.read(&mut reader, false).unwrap();
    assert_eq!(file.tag_group, "");
}

#[test]
fn group_that_is_not_utf8_is_refused() {
    let mut e = entry();
    e.group = [0xFF, 0xFF, 0xFF, 0x41];
    let mut reader = ByteReader::new(entry_bytes(&e));
    let mut file = ModuleFileEntry::default();
    assert_eq!(file.read(&mut reader, false), Err(Error::Utf8ReadingError));
}

#[test]
fn file_entry_fields_are_read_in_order() {
    let mut e = entry();
    e.flags = 0xFF;
    e.block_count = 3;
    e.block_index = -4;
    e.resource_index = 5;
    e.data_offset = 0x0003_0000_0000_1234;
    e.compressed = 6;
    e.uncompressed = 7;
    e.tag_id = -8;
    e.header_size = 9;
    e.name_offset = 10;
    e.parent_index = -11;
    e.resource_count = 12;
    let mut reader = ByteReader::new(entry_bytes(&e));
    let mut file = ModuleFileEntry::default();
    file.read(&mut reader, false).unwrap();
    assert_eq!(reader.stream_position(), 88);
    assert_eq!(file.unknown, 0x5A);
    assert_eq!(file.flags, FileEntryFlags { bits: 7 });
    assert_eq!(file.block_count, 3);
    assert_eq!(file.block_index, -4);
    assert_eq!(file.resource_index, 5);
    assert_eq!(file.tag_group, "bitm");
    assert_eq!(file.data_offset, 0x1234);
    assert_eq!(file.data_offset_flags, DataOffsetType { bits: 3 });
    assert_eq!(file.total_compressed_size, 6);
    assert_eq!(file.total_uncompressed_size, 7);
    assert_eq!(file.tag_id, -8);
    assert_eq!(file.uncompressed_header_size, 9);
    assert_eq!(file.uncompressed_tag_data_size, 11);
    assert_eq!(file.uncompressed_resource_data_size, 12);
    assert_eq!(file.uncompressed_actual_resource_size, 13);
    assert_eq!(file.header_alignment, 1);
    assert_eq!(file.tag_data_alignment, 2);
    assert_eq!(file.resource_data_alignment, 3);
    assert_eq!(file.actual_resource_data_alignment, 4);
    assert_eq!(file.name_offset, 10);
    assert_eq!(file.parent_index, -11);
    assert_eq!(file.asset_hash, -7);
    assert_eq!(file.resource_count, 12);
    assert!(file.data_stream.is_none());
    assert!(file.tag_info.is_none());
    assert!(!file.is_loaded);
    assert_eq!(file.tag_name, "");
}

#[test]
fn file_entry_of_the_first_flight_has_its_own_order() {
    let mut b = Vec::new();
    b.extend_from_slice(&21u32.to_le_bytes());
    b.extend_from_slice(&(-1i32).to_le_bytes());
    b.extend_from_slice(&0xFFFFu16.to_le_bytes());
    b.extend_from_slice(&2u16.to_le_bytes());
    b.extend_from_slice(&22i32.to_le_bytes());
    b.extend_from_slice(&23i32.to_le_bytes());
    b.extend_from_slice(b"dosp");
    b.extend_from_slice(&0x0001_0000_0000_0040u64.to_le_bytes());
    b.extend_from_slice(&24u32.to_le_bytes());
    b.extend_from_slice(&25u32.to_le_bytes());
    b.extend_from_slice(&0x0102_0304_0506_0708_090A_0B0C_0D0E_0F10i128.to_le_bytes());
    b.extend_from_slice(&26i32.to_le_bytes());
    for size in [27u32, 28, 29, 30] {
        b.extend_from_slice(&size.to_le_bytes());
    }
    b.extend_from_slice(&[1, 2, 3, 4]);
    b.extend_from_slice(&[0xEE, 0x5A, 0x0A, 0xEE]);
    b.extend_from_slice(&[0xEE; 4]);
    assert_eq!(b.len(), 88);
    let mut reader = ByteReader::new(b.clone());
    let mut file = ModuleFileEntry::default();
    file.read(&mut reader, true).unwrap();
    assert_eq!(reader.stream_position(), 88);
    assert_eq!(file.name_offset, 21);
    assert_eq!(file.parent_index, -1);
    assert_eq!(file.resource_count, 0xFFFF);
    assert_eq!(file.block_count, 2);
    assert_eq!(file.resource_index, 22);
    assert_eq!(file.block_index, 23);
    assert_eq!(file.tag_group, "psod");
    assert_eq!(file.data_offset, 0x40);
    assert_eq!(file.data_offset_flags.bits, USE_HD1);
    assert_eq!(file.total_compressed_size, 24);
    assert_eq!(file.total_uncompressed_size, 25);
    assert_eq!(file.asset_hash, 0x0102_0304_0506_0708_090A_0B0C_0D0E_0F10);
    assert_eq!(file.tag_id, 26);
    assert_eq!(file.uncompressed_header_size, 27);
    assert_eq!(file.uncompressed_actual_resource_size, 30);
    assert_eq!(file.actual_resource_data_alignment, 4);
    assert_eq!(file.unknown, 0x5A);
    assert_eq!(file.flags.bits, HAS_BLOCKS);
    b.truncate(82);
    let mut reader = ByteReader::new(b);
    assert_eq!(
        file.read(&mut reader, true),
        Err(Error::ReadError(ReadFailure::UnexpectedEof))
    );
}

#[test]
fn file_entry_padding_need_not_be_there() {
    let mut bytes = entry_bytes(&entry());
    bytes.truncate(84);
    let mut reader = ByteReader::new(bytes.clone());
    let mut file = ModuleFileEntry::default();
    assert_eq!(file.read(&mut reader, false), Ok(()));
    assert_eq!(reader.stream_position(), 88);
    bytes.truncate(83);
    let mut reader = ByteReader::new(bytes);
    assert_eq!(
        file.read(&mut reader, false),
        Err(Error::ReadError(ReadFailure::UnexpectedEof))
    );
}

#[test]
fn data_offset_split() {
    for stored in [
        0u64,
        u64::MAX,
        0x0001_0000_0000_0000,
        0x0002_FFFF_FFFF_FFFF,
        0xABCD_1234_5678_9ABC,
        0x0000_8000_0000_0001,
    ] {
        let (offset, flags) = split_data_offset(stored);
        assert_eq!(offset, stored & 0x0000_FFFF_FFFF_FFFF);
        assert_eq!(u64::from(flags.bits), (stored >> 48) & 0xFFFF);
    }
    let (offset, flags) = split_data_offset(0xABCD_1234_5678_9ABC);
    assert_eq!(offset, 0x1234_5678_9ABC);
    assert_eq!(flags.bits, 0xABCD);
}

#[test]
fn flags_contain_what_is_set() {
    let flags = FileEntryFlags::from_bits_truncate(0b1111_1101);
    assert_eq!(flags.bits, 0b101);
    assert!(flags.contains(COMPRESSED));
    assert!(!flags.contains(HAS_BLOCKS));
    assert!(flags.contains(RAW_FILE));
    assert!(flags.contains(COMPRESSED | RAW_FILE));
    assert!(!flags.contains(COMPRESSED | HAS_BLOCKS));
    assert_eq!(FileEntryFlags::default().bits, 0);
    let place = DataOffsetType::from_bits_retain(0x8002);
    assert_eq!(place.bits, 0x8002);
    assert!(place.contains(DEBUG));
    assert!(!place.contains(USE_HD1));
    assert!(place.contains(0));
    assert_eq!(DataOffsetType::default().bits, 0);
}

#[test]
fn block_entry_marker_has_to_be_nought_or_one() {
    let mut reader = ByteReader::new(block_bytes(&ModuleBlockEntry {
        compressed_offset: 1,
        compressed_size: 2,
        decompressed_offset: 3,
        decompressed_size: 4,
        is_compressed: true,
    }));
    let blocks = infinite_rs::common::extensions::BufReaderExt::read_enumerable::<ModuleBlockEntry>(
        &mut reader,
        1,
    )
    .unwrap();
    assert!(blocks[0].is_compressed);
    assert_eq!(blocks[0].decompressed_size, 4);
    let mut bytes = vec![0u8; 20];
    bytes[16] = 2;
    let mut reader = ByteReader::new(bytes);
    assert_eq!(
        infinite_rs::common::extensions::BufReaderExt::read_enumerable::<ModuleBlockEntry>(
            &mut reader,
            1
        )
        .err(),
        Some(Error::ModuleError(ModuleError::IncorrectCompressedValue))
    );
}

#[test]
fn minimum_archive() {
    let pattern: Vec<u8> = (0xA0..0xB0).collect();
    let mut e = entry();
    e.group = *b"mtib";
    e.tag_id = 0x1234_5678;
    e.compressed = 16;
    e.uncompressed = 16;
    let bytes = module_bytes(53, 0, &[e], &[], &[], &[], &pattern);
    let mut module = open(bytes, None);
    assert_eq!(module.header.version, ModuleVersion::Season3);
    assert_eq!(module.files.len(), 1);
    assert_eq!(module.files[0].tag_group, "bitm");
    assert_eq!(module.files[0].tag_name, "bitm/305419896.bitm");
    assert_eq!(module.file_data_offset, 0x1000);
    assert!(!module.use_hd1);
    let mut calls = 0;
    assert_eq!(load(&mut module, 0, &mut calls), Ok(true));
    assert_eq!(calls, 0);
    assert!(module.files[0].is_loaded);
    assert!(module.files[0].tag_info.is_none());
    assert_eq!(payload(&mut module, 0), pattern);
    assert_eq!(load(&mut module, 0, &mut calls), Ok(true));
}

#[test]
fn compressed_single_block() {
    let stored: Vec<u8> = (0..64).collect();
    let mut e = entry();
    e.flags = RAW_FILE | COMPRESSED;
    e.tag_id = 0x1234_5678;
    e.compressed = 64;
    e.uncompressed = 128;
    let bytes = module_bytes(53, 0, &[e], &[], &[], &[], &stored);
    let mut module = open(bytes, None);
    let mut calls = 0;
    assert_eq!(load(&mut module, 0, &mut calls), Ok(true));
    assert_eq!(calls, 1);
    let data = payload(&mut module, 0);
    assert_eq!(data.len(), 128);
    assert_eq!(data, doubled(&stored));
}

#[test]
fn multi_block_assembly() {
    let mut data: Vec<u8> = Vec::new();
    data.extend((0..100).map(|i| i as u8 ^ 0x55));
    data.extend((0..150).map(|i| (i * 3) as u8));
    data.extend((0..112).map(|i| (200 - i) as u8));
    let blocks = [
        ModuleBlockEntry {
            compressed_offset: 0,
            compressed_size: 100,
            decompressed_offset: 0,
            decompressed_size: 100,
            is_compressed: false,
        },
        ModuleBlockEntry {
            compressed_offset: 100,
            compressed_size: 150,
            decompressed_offset: 100,
            decompressed_size: 300,
            is_compressed: true,
        },
        ModuleBlockEntry {
            compressed_offset: 250,
            compressed_size: 112,
            decompressed_offset: 400,
            decompressed_size: 112,
            is_compressed: false,
        },
    ];
    let mut e = entry();
    e.flags = RAW_FILE | HAS_BLOCKS | COMPRESSED;
    e.block_count = 3;
    e.block_index = 0;
    e.compressed = 362;
    e.uncompressed = 512;
    let bytes = module_bytes(53, 0, &[e], &[], &[], &blocks, &data);
    let mut module = open(bytes, None);
    let mut calls = 0;
    assert_eq!(load(&mut module, 0, &mut calls), Ok(true));
    assert_eq!(calls, 1);
    let made = payload(&mut module, 0);
    // The blocks fill the payload exactly: their sizes add up to its size.
    assert_eq!(
        module.blocks.iter().map(|b| b.decompressed_size).sum::<u32>(),
        module.files[0].total_uncompressed_size
    );
    assert_eq!(made.len(), 512);
    assert_eq!(made[..100], data[..100]);
    assert_eq!(made[100..400], doubled(&data[100..250])[..]);
    assert_eq!(made[400..], data[250..]);
}

#[test]
fn blocks_are_sought_not_read_in_sequence() {
    let data: Vec<u8> = (0..40).collect();
    let blocks = [
        ModuleBlockEntry {
            compressed_offset: 30,
            compressed_size: 10,
            decompressed_offset: 5,
            decompressed_size: 10,
            is_compressed: false,
        },
        ModuleBlockEntry {
            compressed_offset: 0,
            compressed_size: 5,
            decompressed_offset: 0,
            decompressed_size: 5,
            is_compressed: false,
        },
        ModuleBlockEntry {
            compressed_offset: 9,
            compressed_size: 9,
            decompressed_offset: 0,
            decompressed_size: 0,
            is_compressed: false,
        },
    ];
    let mut first = entry();
    first.block_count = 2;
    first.block_index = 0;
    first.uncompressed = 20;
    let mut second = entry();
    second.block_count = 1;
    second.block_index = 1;
    second.data_offset = 10;
    second.uncompressed = 5;
    let bytes = module_bytes(53, 0, &[first, second], &[], &[], &blocks, &data);
    let mut module = open(bytes, None);
    let mut calls = 0;
    assert_eq!(load(&mut module, 0, &mut calls), Ok(true));
    let mut expected = vec![0u8; 20];
    expected[..5].copy_from_slice(&data[..5]);
    expected[5..15].copy_from_slice(&data[30..]);
    assert_eq!(payload(&mut module, 0), expected);
    assert_eq!(load(&mut module, 1, &mut calls), Ok(true));
    assert_eq!(payload(&mut module, 1), data[10..15]);
    assert!(module.files[0].is_loaded && module.files[1].is_loaded);
}

#[test]
fn negative_block_index_is_refused() {
    let mut e = entry();
    e.block_count = 1;
    e.block_index = -1;
    e.uncompressed = 4;
    let bytes = module_bytes(53, 0, &[e], &[], &[], &[], &[1, 2, 3, 4]);
    let mut module = open(bytes, None);
    let mut calls = 0;
    assert_eq!(
        load(&mut module, 0, &mut calls),
        Err(Error::ModuleError(ModuleError::NegativeBlockIndex(-1)))
    );
    assert!(!module.files[0].is_loaded);
    assert!(module.files[0].data_stream.is_none());
}

#[test]
fn data_that_is_not_there_is_a_read_error() {
    let mut e = entry();
    e.compressed = 5;
    e.uncompressed = 5;
    let bytes = module_bytes(53, 0, &[e], &[], &[], &[], &[1, 2, 3, 4]);
    let mut module = open(bytes, None);
    let mut calls = 0;
    assert_eq!(
        load(&mut module, 0, &mut calls),
        Err(Error::ReadError(ReadFailure::UnexpectedEof))
    );
}

#[test]
fn a_tag_that_is_not_raw_has_its_header_read() {
    let mut e = entry();
    e.flags = 0;
    e.compressed = 8;
    e.uncompressed = 8;
    let bytes = module_bytes(53, 0, &[e.clone()], &[], &[], &[], b"ucsh\x1c\0\0\0");
    let mut module = open(bytes, None);
    let mut calls = 0;
    assert_eq!(
        load(&mut module, 0, &mut calls),
        Err(Error::TagError(TagError::IncorrectVersion(28)))
    );
    assert!(!module.files[0].is_loaded);
    assert!(module.files[0].tag_info.is_none());
    assert!(module.files[0].data_stream.is_some());
    let bytes = module_bytes(53, 0, &[e], &[], &[], &[], b"hscu\x1b\0\0\0");
    let mut module = open(bytes, None);
    assert_eq!(
        load(&mut module, 0, &mut calls),
        Err(Error::TagError(TagError::IncorrectMagic(0x7563_7368)))
    );
}

#[test]
fn debug_files_are_absent() {
    let mut e = entry();
    e.data_offset = u64::from(DEBUG) << 48;
    e.compressed = 4;
    e.uncompressed = 4;
    let bytes = module_bytes(53, 0, &[e], &[], &[], &[], &[1, 2, 3, 4]);
    let mut module = open(bytes, None);
    let mut calls = 0;
    assert_eq!(load(&mut module, 0, &mut calls), Ok(false));
    assert!(!module.files[0].is_loaded);
}

#[test]
fn hd1_files_are_absent_without_the_hd1_module() {
    let mut e = entry();
    e.data_offset = (u64::from(USE_HD1) << 48) | 0x20;
    e.compressed = 4;
    e.uncompressed = 4;
    let bytes = module_bytes(53, 0x10, &[e], &[], &[], &[], &[1, 2, 3, 4]);
    let mut module = open(bytes.clone(), None);
    assert!(!module.use_hd1);
    let mut calls = 0;
    assert_eq!(load(&mut module, 0, &mut calls), Ok(false));
}

#[test]
fn hd1_is_used_only_where_the_header_asks_for_it() {
    let bytes = module_bytes(53, 0, &[], &[], &[], &[], &[]);
    let module = open(bytes, Some(vec![1, 2, 3]));
    assert!(!module.use_hd1);
    assert!(module.hd1_file.is_none());
    let bytes = module_bytes(53, 1, &[], &[], &[], &[], &[]);
    let module = open(bytes, Some(vec![1, 2, 3]));
    assert!(module.use_hd1);
    assert!(module.hd1_file.is_some());
}

#[test]
fn hd1_offsets_are_counted_from_the_delta() {
    let hd1: Vec<u8> = (0..0x60).collect();
    let mut e = entry();
    e.data_offset = (u64::from(USE_HD1) << 48) | 0x30;
    e.compressed = 4;
    e.uncompressed = 4;
    let bytes = module_bytes(53, 0x10, &[e.clone()], &[], &[], &[], &[9; 0x40]);
    let mut module = open(bytes, Some(hd1.clone()));
    let mut calls = 0;
    assert_eq!(load(&mut module, 0, &mut calls), Ok(true));
    assert_eq!(payload(&mut module, 0), vec![0x20, 0x21, 0x22, 0x23]);
    // Up to revision 52 the delta counts twice.
    e.flags = RAW_FILE;
    let bytes = module_bytes(52, 0x10, &[e], b"name\0", &[], &[], &[9; 0x40]);
    let mut module = open(bytes, Some(hd1));
    assert_eq!(load(&mut module, 0, &mut calls), Ok(true));
    assert_eq!(payload(&mut module, 0), vec![0x10, 0x11, 0x12, 0x13]);
}

#[test]
fn hd1_offset_below_the_delta_cannot_be_read() {
    let mut e = entry();
    e.data_offset = (u64::from(USE_HD1) << 48) | 0x08;
    let bytes = module_bytes(53, 0x10, &[e], &[], &[], &[], &[]);
    let module = open(bytes, Some(vec![0; 16]));
    assert!(!module.can_read_tag(0));
    assert!(!module.can_read_tag(1));
}

#[test]
fn tables_follow_one_another() {
    let blocks = [
        ModuleBlockEntry {
            compressed_offset: 1,
            compressed_size: 2,
            decompressed_offset: 3,
            decompressed_size: 4,
            is_compressed: true,
        },
        ModuleBlockEntry {
            compressed_offset: 5,
            compressed_size: 6,
            decompressed_offset: 7,
            decompressed_size: 8,
            is_compressed: false,
        },
    ];
    let mut a = entry();
    a.name_offset = 4;
    let mut b = entry();
    b.name_offset = 0;
    let bytes = module_bytes(
        52,
        0,
        &[a, b],
        b"one\0second\0",
        &[1, 0, 0xFFFF_FFFF],
        &blocks,
        &[],
    );
    let end_of_tables = 80 + 2 * 88 + 11 + 3 * 4 + 2 * 20;
    let module = open(bytes, None);
    assert_eq!(module.header.version, ModuleVersion::CampaignFlight);
    assert_eq!(module.strings_offset, 80 + 2 * 88);
    assert_eq!(module.resource_indices, vec![1, 0, 0xFFFF_FFFF]);
    assert_eq!(module.blocks, blocks.to_vec());
    assert_eq!(module.file_data_offset, 0x1000);
    assert!(end_of_tables < 0x1000);
    assert_eq!(module.files[0].tag_name, "second");
    assert_eq!(module.files[1].tag_name, "one");
    assert_eq!(
        module.file_handle.as_ref().unwrap().stream_position(),
        0x1000
    );
}

#[test]
fn file_data_starts_at_the_next_multiple_of_4096_even_from_a_multiple() {
    // 80 + 45 * 88 + 56 = 4096: the tables end on a multiple.
    let entries = vec![entry(); 45];
    let strings = vec![0u8; 56];
    let bytes = module_bytes(52, 0, &entries, &strings, &[], &[], &[]);
    let module = open(bytes, None);
    assert_eq!(module.file_data_offset, 0x2000);
    let strings = vec![0u8; 55];
    let bytes = module_bytes(52, 0, &entries, &strings, &[], &[], &[]);
    let module = open(bytes, None);
    assert_eq!(module.file_data_offset, 0x1000);
}

#[test]
fn truncated_tables_are_read_errors() {
    let full = module_bytes(
        53,
        0,
        &[entry()],
        &[],
        &[7],
        &[ModuleBlockEntry::default()],
        &[],
    );
    for cut in [79, 80 + 83, 80 + 88 + 3, 80 + 88 + 4 + 19] {
        let mut module = ModuleFile::default();
        assert_eq!(
            module.read(full[..cut].to_vec(), None),
            Err(Error::ReadError(ReadFailure::UnexpectedEof)),
            "cut at {}",
            cut
        );
    }
    let mut module = ModuleFile::default();
    assert_eq!(module.read(full[..80 + 88 + 4 + 20].to_vec(), None), Ok(()));
    assert_eq!(module.file_data_offset, 0x1000);
}

#[test]
fn names_that_are_not_utf8_are_refused() {
    let bytes = module_bytes(52, 0, &[entry()], &[0xFF, 0], &[], &[], &[]);
    let mut module = ModuleFile::default();
    module.read(bytes, None).unwrap();
    assert_eq!(module.resolve_names(), Err(Error::Utf8ReadingError));
}

fn child(parent_index: i32) -> Entry {
    let mut e = entry();
    e.tag_id = -1;
    e.parent_index = parent_index;
    e.group = [0xFF; 4];
    e
}

#[test]
fn path_synthesis() {
    // A is file 0, B is file 1, C is file 2.
    let a = child(1);
    let mut b = child(2);
    b.resource_index = 0;
    b.resource_count = 1;
    let mut c = entry();
    c.tag_id = 0xABCD;
    c.group = *b"mtib";
    c.resource_index = 5;
    c.resource_count = 2;
    let resources = [0, 9, 9, 9, 9, 0, 1];
    let bytes = module_bytes(53, 0, &[a, b, c], &[], &resources, &[], &[]);
    let mut module = ModuleFile::default();
    module.read(bytes, None).unwrap();
    assert!(module.has_valid_links());
    assert_eq!(module.get_tag_path(2, 0).unwrap(), "bitm/43981.bitm");
    // B is the second of C's resources, A the first of B's.
    assert_eq!(module.get_tag_path(1, 0).unwrap(), "bitm/43981.bitm[1:resource]");
    assert_eq!(
        module.get_tag_path(0, 0).unwrap(),
        "bitm/43981.bitm[1:resource][0:block]"
    );
    // The paths are a function of the tables: asking again gives the same.
    assert_eq!(
        module.get_tag_path(0, 0).unwrap(),
        module.get_tag_path(0, 0).unwrap()
    );
    module.resolve_names().unwrap();
    assert_eq!(module.files[0].tag_name, "bitm/43981.bitm[1:resource][0:block]");
    assert_eq!(module.files[1].tag_name, "bitm/43981.bitm[1:resource]");
    assert_eq!(module.files[2].tag_name, "bitm/43981.bitm");
    // With the names set the paths stay what they were.
    assert_eq!(
        module.get_tag_path(0, 0).unwrap(),
        "bitm/43981.bitm[1:resource][0:block]"
    );
    assert_eq!(module.get_tag_path(1, 0).unwrap(), "bitm/43981.bitm[1:resource]");
}

#[test]
fn path_of_a_child_that_its_parent_does_not_list_counts_all_resources() {
    let a = child(1);
    let mut b = entry();
    b.tag_id = -2;
    b.group = *b" tam";
    b.resource_index = 1;
    b.resource_count = 3;
    let bytes = module_bytes(53, 0, &[a, b], &[], &[0, 7, 8, 9], &[], &[]);
    let module = open(bytes, None);
    assert_eq!(module.files[1].tag_name, "mat /-2.mat ");
    assert_eq!(module.files[0].tag_name, "mat /-2.mat [3:resource]");
}

#[test]
fn path_without_id_and_parent_is_empty() {
    let e = child(-1);
    let bytes = module_bytes(53, 0, &[e], &[], &[], &[], &[]);
    let module = open(bytes, None);
    assert_eq!(module.files[0].tag_name, "");
}

#[test]
fn path_with_a_negative_parent_is_a_conversion_error() {
    let e = child(-2);
    let bytes = module_bytes(53, 0, &[e], &[], &[], &[], &[]);
    let mut module = ModuleFile::default();
    module.read(bytes, None).unwrap();
    assert!(module.has_valid_links());
    assert_eq!(module.get_tag_path(0, 0), Err(Error::TryFromIntError));
    assert_eq!(module.resolve_names(), Err(Error::TryFromIntError));
    let a = child(1);
    let mut b = entry();
    b.tag_id = 5;
    b.resource_index = -1;
    let bytes = module_bytes(53, 0, &[a, b], &[], &[], &[], &[]);
    let mut module = ModuleFile::default();
    module.read(bytes, None).unwrap();
    assert_eq!(module.get_tag_path(0, 0), Err(Error::TryFromIntError));
    assert_eq!(module.get_tag_path(1, 0).unwrap(), "bitm/5.bitm");
}

#[test]
fn path_synthesis_gives_up_below_three_levels() {
    // 0 -> 1 -> 2 -> 3 -> 4 -> 5, and only 5 has an id.
    let mut entries: Vec<Entry> = (1..=5).map(child).collect();
    let mut root = entry();
    root.tag_id = 77;
    entries.push(root);
    let bytes = module_bytes(53, 0, &entries, &[], &[], &[], &[]);
    let mut module = ModuleFile::default();
    module.read(bytes, None).unwrap();
    assert!(module.has_valid_links());
    assert_eq!(
        module.get_tag_path(0, 0),
        Err(Error::TagError(TagError::RecursionDepth))
    );
    // The parent with the id is asked for its path one level further down.
    assert_eq!(
        module.get_tag_path(1, 0),
        Err(Error::TagError(TagError::RecursionDepth))
    );
    assert_eq!(
        module.get_tag_path(2, 0).unwrap(),
        "bitm/77.bitm[0:resource][0:block][0:block]"
    );
    assert_eq!(
        module.get_tag_path(2, 1),
        Err(Error::TagError(TagError::RecursionDepth))
    );
    assert_eq!(
        module.get_tag_path(5, 4),
        Err(Error::TagError(TagError::RecursionDepth))
    );
    assert_eq!(module.get_tag_path(5, 3).unwrap(), "bitm/77.bitm");
    assert_eq!(
        module.resolve_names(),
        Err(Error::TagError(TagError::RecursionDepth))
    );
    assert_eq!(module.files[1].tag_name, "");
}

#[test]
fn links_outside_the_tables_are_found() {
    let bytes = module_bytes(53, 0, &[child(1)], &[], &[], &[], &[]);
    let mut module = ModuleFile::default();
    module.read(bytes, None).unwrap();
    assert!(!module.has_valid_links());
    let a = child(1);
    let mut b = entry();
    b.resource_index = 1;
    b.resource_count = 2;
    let bytes = module_bytes(53, 0, &[a, b], &[], &[0, 0], &[], &[]);
    let mut module = ModuleFile::default();
    module.read(bytes, None).unwrap();
    assert!(!module.has_valid_links());
}

#[test]
fn a_tag_is_found_by_its_id() {
    let mut a = entry();
    a.tag_id = 10;
    let mut b = entry();
    b.tag_id = 20;
    b.compressed = 2;
    b.uncompressed = 2;
    let mut c = entry();
    c.tag_id = 20;
    let bytes = module_bytes(53, 0, &[a, b, c], &[], &[], &[], &[0xCA, 0xFE]);
    let mut module = open(bytes, None);
    assert_eq!(module.find_tag(20), Some(1));
    assert_eq!(module.find_tag(30), None);
    assert!(matches!(module.read_tag_from_id(30), Ok(None)));
    let (index, read) = module.read_tag_from_id(20).unwrap().unwrap();
    assert_eq!(index, 1);
    let mut assembly = match read {
        TagRead::Pending(assembly) => assembly,
        _ => panic!("the tag has to be read"),
    };
    assert_eq!(assembly.data, vec![0, 0]);
    assert!(matches!(
        module.advance_tag(index, &mut assembly, None),
        Ok(AssemblyStep::Complete)
    ));
    assert_eq!(payload(&mut module, 1), vec![0xCA, 0xFE]);
    assert!(matches!(
        module.read_tag_from_id(20),
        Ok(Some((1, TagRead::Present)))
    ));
}

#[test]
fn steps_that_cannot_be_taken_are_told_apart() {
    let blocks = [ModuleBlockEntry {
        compressed_offset: 0,
        compressed_size: 4,
        decompressed_offset: 6,
        decompressed_size: 4,
        is_compressed: false,
    }];
    let mut e = entry();
    e.block_count = 2;
    e.uncompressed = 8;
    let bytes = module_bytes(53, 0, &[e], &[], &[], &blocks, &[0; 8]);
    let module = open(bytes, None);
    let assembly = match module.read_tag(0) {
        TagRead::Pending(assembly) => assembly,
        _ => panic!("the tag has to be read"),
    };
    // The stretch of the block ends behind the payload.
    assert!(!module.can_advance_tag(0, &assembly, &None));
    assert!(!module.can_advance_tag(1, &assembly, &None));
}

#[test]
fn copy_into_overwrites_a_stretch() {
    let mut data = vec![1, 2, 3, 4, 5];
    copy_into(&mut data, 1, &vec![8, 9]);
    assert_eq!(data, vec![1, 8, 9, 4, 5]);
    copy_into(&mut data, 5, &vec![]);
    assert_eq!(data, vec![1, 8, 9, 4, 5]);
}

#[test]
fn decompressor_answers() {
    let mut output = vec![7];
    assert_eq!(
        decompress(-3, vec![1, 2, 3], &mut output),
        Err(Error::DecompressionError(
            DecompressionError::DecompressionFailed(-3)
        ))
    );
    assert_eq!(output, vec![7]);
    assert_eq!(
        decompress(4, vec![1, 2, 3], &mut output),
        Err(Error::DecompressionError(
            DecompressionError::BufferSizeOverflow
        ))
    );
    assert_eq!(output, vec![7]);
    assert_eq!(decompress(2, vec![1, 2, 3], &mut output), Ok(2));
    assert_eq!(output, vec![1, 2]);
    assert_eq!(decompress(3, vec![1, 2, 3], &mut output), Ok(3));
    assert_eq!(output, vec![1, 2, 3]);
    assert_eq!(decompress(0, vec![], &mut output), Ok(0));
    assert_eq!(output, Vec::<u8>::new());
    assert_eq!(scratch_buffer(5), vec![0u8; 13]);
    assert_eq!(scratch_buffer(0), vec![0u8; 8]);
}

#[test]
fn raw_data_with_and_without_the_header() {
    let mut e = entry();
    e.compressed = 6;
    e.uncompressed = 6;
    e.header_size = 2;
    let bytes = module_bytes(53, 0, &[e], &[], &[], &[], &[1, 2, 3, 4, 5, 6]);
    let mut module = open(bytes, None);
    assert_eq!(
        module.files[0].get_raw_data(true),
        Err(Error::TagError(TagError::NotLoaded))
    );
    let mut calls = 0;
    load(&mut module, 0, &mut calls).unwrap();
    assert_eq!(module.files[0].get_raw_data(false), Ok(vec![3, 4, 5, 6]));
    assert_eq!(
        module.files[0].get_raw_data(true),
        Ok(vec![1, 2, 3, 4, 5, 6])
    );
    module.files[0].uncompressed_header_size = 7;
    assert_eq!(module.files[0].get_raw_data(false), Ok(vec![]));
}

#[test]
fn reading_a_module_again_forgets_the_hd1_module() {
    let with_delta = module_bytes(53, 1, &[], &[], &[], &[], &[]);
    let without = module_bytes(53, 0, &[entry()], &[], &[], &[], &[]);
    let mut module = ModuleFile::default();
    module.read(with_delta, Some(vec![1, 2, 3])).unwrap();
    assert!(module.use_hd1);
    assert!(module.hd1_file.is_some());
    module.read(without.clone(), Some(vec![1, 2, 3])).unwrap();
    assert!(!module.use_hd1);
    assert!(module.hd1_file.is_none());
    assert_eq!(module.files.len(), 1);
    module.read(without, None).unwrap();
    assert_eq!(module.files.len(), 1);
}
