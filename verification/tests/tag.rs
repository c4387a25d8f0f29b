use bitflags::Flags;
use infinite_rs::common::errors::{Error, ReadFailure, Result, TagError};
use infinite_rs::common::extensions::{BufReaderExt, ByteReader};
use infinite_rs::module::file::{ModuleFileEntry, TagStructure, RAW_FILE};
use infinite_rs::module::header::ModuleVersion;
use infinite_rs::tag::data_reference::TagDataReference;
use infinite_rs::tag::datablock::{TagDataBlock, TagSectionType};
use infinite_rs::tag::dependency::TagDependency;
use infinite_rs::tag::header::{TagHeader, HEADER_MAGIC, HEADER_VERSION};
use infinite_rs::tag::layout::{
    extract_field_maps, FieldDecl, FieldKind, FieldValue, Layout, Record,
};
use infinite_rs::tag::loader::TagFile;
use infinite_rs::tag::structure::{TagStruct, TagStructLocation, TagStructType};
use infinite_rs::tag::types::common_types::{
    AnyTag, AnyTagGuts, FieldARGBColor, FieldAngleBounds, FieldArray, FieldBlock, FieldByteFlags,
    FieldCharEnum, FieldCharInteger, FieldData, FieldInt64Integer, FieldLongEnum, FieldLongFlags,
    FieldLongString, FieldPad, FieldPoint2D, FieldQwordInteger, FieldReal, FieldRealARGBColor,
    FieldRealPlane3D, FieldRealPoint3D, FieldReference, FieldShortBounds, FieldShortEnum,
    FieldShortInteger, FieldString, FieldStringId, FieldTagResource, FieldWordFlags,
    FieldWordInteger,
};
use num_enum::TryFromPrimitive;

fn header(
    dependencies: u32,
    datablocks: u32,
    structs: u32,
    references: u32,
    strings: u32,
    zoneset: u32,
    data_size: u32,
    resource_size: u32,
) -> Vec<u8> {
    let mut b = Vec::new();
    b.extend_from_slice(b"ucsh");
    b.extend_from_slice(&27i32.to_le_bytes());
    b.extend_from_slice(&(-2i64).to_le_bytes());
    b.extend_from_slice(&3i64.to_le_bytes());
    for count in [dependencies, datablocks, structs, references, 99, strings, zoneset, 7] {
        b.extend_from_slice(&count.to_le_bytes());
    }
    for size in [0x1234u32, data_size, resource_size, 21] {
        b.extend_from_slice(&size.to_le_bytes());
    }
    b.extend_from_slice(&[4, 5, 6, 7]);
    b.extend_from_slice(&2u32.to_le_bytes());
    assert_eq!(b.len(), 80);
    b
}

fn datablock(entry_size: u32, section: u16, offset: u64) -> Vec<u8> {
    let mut b = Vec::new();
    b.extend_from_slice(&entry_size.to_le_bytes());
    b.extend_from_slice(&0x0102u16.to_le_bytes());
    b.extend_from_slice(&section.to_le_bytes());
    b.extend_from_slice(&offset.to_le_bytes());
    b
}

fn tag_struct(kind: u16, location: u16, target: i32, field_block: i32, field_offset: u32) -> Vec<u8> {
    let mut b = Vec::new();
    b.extend_from_slice(&0x0F0E_0D0C_0B0A_0908_0706_0504_0302_0100u128.to_le_bytes());
    b.extend_from_slice(&kind.to_le_bytes());
    b.extend_from_slice(&location.to_le_bytes());
    b.extend_from_slice(&target.to_le_bytes());
    b.extend_from_slice(&field_block.to_le_bytes());
    b.extend_from_slice(&field_offset.to_le_bytes());
    b
}

fn data_reference(target: i32, field_block: i32, field_offset: u32) -> Vec<u8> {
    let mut b = Vec::new();
    b.extend_from_slice(&5i32.to_le_bytes());
    b.extend_from_slice(&6i32.to_le_bytes());
    b.extend_from_slice(&target.to_le_bytes());
    b.extend_from_slice(&field_block.to_le_bytes());
    b.extend_from_slice(&field_offset.to_le_bytes());
    b
}

/// The bytes of a tag: header, tables, zoneset, then the tag data.
fn tag_bytes(
    datablocks: &[Vec<u8>],
    structs: &[Vec<u8>],
    references: &[Vec<u8>],
    data_size: u32,
    resource_size: u32,
    data: &[u8],
) -> Vec<u8> {
    let mut b = header(
        0,
        datablocks.len() as u32,
        structs.len() as u32,
        references.len() as u32,
        0,
        3,
        data_size,
        resource_size,
    );
    for table in [datablocks, structs, references] {
        for record in table {
            b.extend_from_slice(record);
        }
    }
    b.extend_from_slice(&[0xAA, 0xBB, 0xCC]);
    b.extend_from_slice(data);
    b
}

/// A file entry that holds `payload`, as the last step of a read leaves it.
fn loaded(payload: Vec<u8>, flags: u8, tag_id: i32) -> Result<ModuleFileEntry> {
    let mut file = ModuleFileEntry::default();
    file.flags.bits = flags;
    file.tag_id = tag_id;
    file.total_uncompressed_size = payload.len() as u32;
    file.finish_read(payload, &ModuleVersion::Season3)?;
    Ok(file)
}

#[test]
fn tag_header_with_wrong_magic_or_version_is_refused() {
    let mut bytes = header(0, 0, 0, 0, 0, 0, 0, 0);
    bytes[0] = b'U';
    let mut tag_header = TagHeader::default();
    let mut reader = ByteReader::new(bytes.clone());
    assert_eq!(
        tag_header.read(&mut reader),
        Err(Error::TagError(TagError::IncorrectMagic(0x6873_6355)))
    );
    assert_eq!(reader.stream_position(), 4);
    bytes[0] = b'u';
    bytes[4] = 26;
    let mut reader = ByteReader::new(bytes.clone());
    assert_eq!(
        tag_header.read(&mut reader),
        Err(Error::TagError(TagError::IncorrectVersion(26)))
    );
    assert_eq!(reader.stream_position(), 8);
    bytes[4] = 27;
    bytes.truncate(79);
    assert_eq!(
        tag_header.read(&mut ByteReader::new(bytes)),
        Err(Error::ReadError(ReadFailure::UnexpectedEof))
    );
    assert_eq!(HEADER_MAGIC.to_le_bytes(), *b"ucsh");
    assert_eq!(HEADER_VERSION, 27);
}

#[test]
fn tag_header_fields_are_read_in_order() {
    let mut reader = ByteReader::new(header(1, 2, 3, 4, 5, 6, 8, 9));
    let mut tag_header = TagHeader::default();
    tag_header.read(&mut reader).unwrap();
    assert_eq!(reader.stream_position(), 80);
    assert_eq!(
        tag_header,
        TagHeader {
            magic: HEADER_MAGIC,
            version: 27,
            root_struct_guid: -2,
            checksum: 3,
            dependency_count: 1,
            datablock_count: 2,
            tagstruct_count: 3,
            data_reference_count: 4,
            tag_reference_count: 99,
            string_table_size: 5,
            zoneset_size: 6,
            unknown: 7,
            header_size: 0x1234,
            data_size: 8,
            resource_size: 9,
            actual_resource_size: 21,
            header_alignment: 4,
            tag_alignment: 5,
            resource_alignment: 6,
            actual_resource_alignment: 7,
            is_resource: true,
        }
    );
}

#[test]
fn datablocks_name_their_section() {
    let mut reader = ByteReader::new(datablock(10, 2, 0x1_0000_0000));
    let blocks = reader.read_enumerable::<TagDataBlock>(1).unwrap();
    assert_eq!(
        blocks[0],
        TagDataBlock {
            entry_size: 10,
            padding: 0x0102,
            section_type: TagSectionType::ResourceData,
            offset: 0x1_0000_0000,
        }
    );
    let mut reader = ByteReader::new(datablock(10, 4, 0));
    assert_eq!(
        reader.read_enumerable::<TagDataBlock>(1).err(),
        Some(Error::TagError(TagError::InvalidTagSection(4)))
    );
    // The section is refused before the offset is missed.
    let mut reader = ByteReader::new(datablock(10, 9, 0)[..8].to_vec());
    assert_eq!(
        reader.read_enumerable::<TagDataBlock>(1).err(),
        Some(Error::TagError(TagError::InvalidTagSection(9)))
    );
    assert_eq!(TagSectionType::try_from_primitive(0), Some(TagSectionType::Header));
    assert_eq!(TagSectionType::try_from_primitive(1), Some(TagSectionType::TagData));
    assert_eq!(
        TagSectionType::try_from_primitive(3),
        Some(TagSectionType::ActualResource)
    );
    assert_eq!(TagSectionType::default(), TagSectionType::Header);
}

#[test]
fn struct_definitions_name_kind_and_location() {
    let mut reader = ByteReader::new(tag_struct(3, 2, -1, 4, 5));
    let structs = reader.read_enumerable::<TagStruct>(1).unwrap();
    assert_eq!(
        structs[0],
        TagStruct {
            guid: 0x0F0E_0D0C_0B0A_0908_0706_0504_0302_0100,
            struct_type: TagStructType::Custom,
            location: TagStructLocation::Debug,
            target_index: -1,
            field_block: 4,
            field_offset: 5,
        }
    );
    let mut reader = ByteReader::new(tag_struct(5, 0, 0, 0, 0));
    assert_eq!(
        reader.read_enumerable::<TagStruct>(1).err(),
        Some(Error::TagError(TagError::InvalidTagStruct(5)))
    );
    let mut reader = ByteReader::new(tag_struct(4, 3, 0, 0, 0));
    assert_eq!(
        reader.read_enumerable::<TagStruct>(1).err(),
        Some(Error::TagError(TagError::InvalidTagStructLocation(3)))
    );
    // Kind and location are refused in the order in which they are stored.
    let mut reader = ByteReader::new(tag_struct(5, 3, 0, 0, 0));
    assert_eq!(
        reader.read_enumerable::<TagStruct>(1).err(),
        Some(Error::TagError(TagError::InvalidTagStruct(5)))
    );
    assert_eq!(TagStructType::try_from_primitive(0), Some(TagStructType::MainStruct));
    assert_eq!(TagStructType::try_from_primitive(1), Some(TagStructType::TagBlock));
    assert_eq!(TagStructType::try_from_primitive(2), Some(TagStructType::Resource));
    assert_eq!(TagStructType::try_from_primitive(4), Some(TagStructType::Literal));
    assert_eq!(
        TagStructLocation::try_from_primitive(1),
        Some(TagStructLocation::Resource)
    );
    assert_eq!(TagStructLocation::default(), TagStructLocation::Internal);
}

#[test]
fn tag_tables_follow_the_header() {
    let mut bytes = header(1, 1, 1, 1, 4, 2, 0, 0);
    bytes.extend_from_slice(&[1, 0, 0, 0, 2, 0, 0, 0]);
    bytes.extend_from_slice(&3u64.to_le_bytes());
    bytes.extend_from_slice(&(-4i32).to_le_bytes());
    bytes.extend_from_slice(&5i32.to_le_bytes());
    bytes.extend_from_slice(&datablock(6, 1, 7));
    bytes.extend_from_slice(&tag_struct(0, 0, 0, -1, 0));
    bytes.extend_from_slice(&data_reference(8, 9, 10));
    bytes.extend_from_slice(&[0xAA, 0xBB]);
    bytes.extend_from_slice(b"str\0");
    bytes.extend_from_slice(&[0x77; 5]);
    let tables = 80 + 24 + 16 + 32 + 20 + 2;
    // From revision 53 on there is no string table.
    let mut reader = ByteReader::new(bytes.clone());
    let mut tag = TagFile::default();
    tag.read(&mut reader, &ModuleVersion::Season3).unwrap();
    assert_eq!(reader.stream_position(), tables);
    assert_eq!(
        tag.dependencies,
        vec![TagDependency {
            tag_group: 1,
            name_offset: 2,
            asset_id: 3,
            global_id: -4,
            unknown: 5
        }]
    );
    assert_eq!(tag.datablock_definitions.len(), 1);
    assert_eq!(tag.struct_definitions.len(), 1);
    assert_eq!(
        tag.data_references,
        vec![TagDataReference {
            parent_struct_index: 5,
            unknown: 6,
            target_index: 8,
            field_block: 9,
            field_offset: 10
        }]
    );
    assert_eq!(tag.zoneset, vec![0xAA, 0xBB]);
    assert_eq!(tag.string_table, Vec::<u8>::new());
    assert_eq!(tag.count_main_structs(), 1);
    assert_eq!(tag.main_struct_index(), Some(0));
    // Up to revision 52 it follows the zoneset.
    let mut reader = ByteReader::new(bytes.clone());
    let mut tag = TagFile::default();
    tag.read(&mut reader, &ModuleVersion::CampaignFlight).unwrap();
    assert_eq!(reader.stream_position(), tables + 4);
    assert_eq!(tag.string_table, b"str\0".to_vec());
    bytes.truncate(tables as usize + 3);
    let mut reader = ByteReader::new(bytes.clone());
    assert_eq!(
        TagFile::default().read(&mut reader, &ModuleVersion::Release),
        Err(Error::ReadError(ReadFailure::UnexpectedEof))
    );
    let mut reader = ByteReader::new(bytes);
    assert_eq!(
        TagFile::default().read(&mut reader, &ModuleVersion::Season3),
        Ok(())
    );
}

#[test]
fn tags_of_group_psod_never_have_a_string_table() {
    let mut payload = header(0, 0, 0, 0, 64, 0, 0, 0);
    payload.extend_from_slice(&[1, 2, 3]);
    let mut file = ModuleFileEntry::default();
    file.tag_group = "psod".to_string();
    assert_eq!(file.finish_read(payload.clone(), &ModuleVersion::Release), Ok(()));
    assert!(file.is_loaded);
    assert_eq!(file.data_stream.as_ref().unwrap().stream_position(), 80);
    let mut file = ModuleFileEntry::default();
    file.tag_group = "bitm".to_string();
    assert_eq!(
        file.finish_read(payload, &ModuleVersion::Release),
        Err(Error::ReadError(ReadFailure::UnexpectedEof))
    );
    assert!(!file.is_loaded);
    assert!(file.tag_info.is_none());
}

#[test]
fn datablock_offsets_start_at_their_section() {
    let mut tag = TagFile::default();
    tag.header.data_size = 0x100;
    tag.header.resource_size = 0x20;
    let mut block = TagDataBlock::default();
    block.offset = 5;
    for (section, start) in [
        (TagSectionType::Header, 0),
        (TagSectionType::TagData, 0),
        (TagSectionType::ResourceData, 0x100),
        (TagSectionType::ActualResource, 0x120),
    ] {
        block.section_type = section;
        assert_eq!(block.get_offset(&tag), start + 5);
        assert_eq!(block.checked_offset(&tag), Some(start + 5));
    }
    tag.header.data_size = u32::MAX;
    tag.header.resource_size = u32::MAX;
    assert_eq!(block.get_offset(&tag), 2 * u64::from(u32::MAX) + 5);
    block.offset = u64::MAX - 2 * u64::from(u32::MAX);
    assert_eq!(block.checked_offset(&tag), Some(u64::MAX));
    block.offset += 1;
    assert_eq!(block.checked_offset(&tag), None);
    tag.datablock_definitions.push(block);
    assert!(!tag.has_fitting_offsets());
    tag.datablock_definitions[0].offset = 0;
    assert!(tag.has_fitting_offsets());
}

#[test]
fn payload_offsets_of_resource_data_follow_all_tag_data() {
    let mut tag = TagFile::default();
    for (size, section, offset) in [
        (0x10, TagSectionType::TagData, 0),
        (0x20, TagSectionType::Header, 0x30),
        (0x40, TagSectionType::ResourceData, 0x8),
        (0x80, TagSectionType::TagData, 0x10),
        (0x100, TagSectionType::ActualResource, 0x4),
    ] {
        tag.datablock_definitions.push(TagDataBlock {
            entry_size: size,
            padding: 0,
            section_type: section,
            offset,
        });
    }
    assert!(tag.has_fitting_offsets());
    assert_eq!(tag.tag_data_total(), 0x90);
    assert_eq!(tag.payload_offset(0), 0);
    assert_eq!(tag.payload_offset(1), 0x30);
    assert_eq!(tag.payload_offset(2), 0x98);
    assert_eq!(tag.payload_offset(3), 0x10);
    assert_eq!(tag.payload_offset(4), 0x4);
}

#[derive(Debug, PartialEq, Eq)]
enum Shape {
    Round,
    Square,
    Flat,
}

impl TryFromPrimitive for Shape {
    type Primitive = u16;
    type Error = u16;
    const NAME: &'static str = "Shape";

    fn try_from_primitive(number: u16) -> core::result::Result<Self, u16> {
        match number {
            0 => Ok(Shape::Round),
            1 => Ok(Shape::Square),
            2 => Ok(Shape::Flat),
            other => Err(other),
        }
    }
}

#[derive(Debug, PartialEq, Eq)]
struct Marks(u16);

impl Flags for Marks {
    const FLAGS: &'static [bitflags::Flag<Marks>] = &[
        bitflags::Flag::new("ONE", Marks(0b01)),
        bitflags::Flag::new("FOUR", Marks(0b100)),
    ];
    type Bits = u16;

    fn bits(&self) -> u16 {
        self.0
    }

    fn from_bits_retain(bits: u16) -> Marks {
        Marks(bits)
    }
}

#[test]
fn enum_fields_hand_the_number_to_the_conversion() {
    let mut reader = ByteReader::new(vec![2, 0, 3, 0, 7, 1, 0, 0, 0]);
    let mut field = FieldShortEnum(Shape::Round);
    assert_eq!(field.read(&mut reader, Shape::try_from_primitive), Ok(()));
    assert_eq!(field.0, Shape::Flat);
    assert_eq!(
        field.read(&mut reader, Shape::try_from_primitive),
        Err(Error::TagError(TagError::NumEnumError))
    );
    assert_eq!(field.0, Shape::Flat);
    assert_eq!(reader.stream_position(), 4);
    let mut small = FieldCharEnum(0u8);
    assert_eq!(
        small.read(&mut reader, |n: u8| if n == 7 { Ok(n * 2) } else { Err(()) }),
        Ok(())
    );
    assert_eq!(small.0, 14);
    let mut large = FieldLongEnum(false);
    assert_eq!(
        large.read(&mut reader, |n: u32| if n == 1 { Ok(true) } else { Err(n) }),
        Ok(())
    );
    assert!(large.0);
    assert_eq!(
        large.read(&mut reader, |n: u32| if n == 1 { Ok(true) } else { Err(n) }),
        Err(Error::ReadError(ReadFailure::UnexpectedEof))
    );
}

#[test]
fn flag_fields_hand_the_bits_to_the_conversion() {
    let mut reader = ByteReader::new(vec![0xFF, 0xFF, 0x81, 0x04, 0x03, 0x02, 0x01]);
    let mut field = FieldWordFlags(Marks(0));
    assert_eq!(field.read(&mut reader, Marks::from_bits_truncate), Ok(()));
    assert_eq!(field.0, Marks(0b101));
    let mut byte = FieldByteFlags(Marks(0));
    assert_eq!(
        byte.read(&mut reader, |bits: u8| Marks::from_bits_retain(u16::from(bits))),
        Ok(())
    );
    assert_eq!(byte.0, Marks(0x81));
    let mut long = FieldLongFlags(0u32);
    assert_eq!(long.read(&mut reader, |bits: u32| bits), Ok(()));
    assert_eq!(long.0, 0x0102_0304);
    assert_eq!(
        long.read(&mut reader, |bits: u32| bits),
        Err(Error::ReadError(ReadFailure::UnexpectedEof))
    );
    assert_eq!(long.0, 0x0102_0304);
}

#[test]
fn plain_fields_hold_what_is_stored() {
    let mut data = Vec::new();
    data.extend_from_slice(&(-5i32).to_le_bytes());
    data.push(0x80);
    data.extend_from_slice(&(-300i16).to_le_bytes());
    data.extend_from_slice(&i64::MIN.to_le_bytes());
    data.extend_from_slice(&0xBEEFu16.to_le_bytes());
    data.extend_from_slice(&u64::MAX.to_le_bytes());
    data.extend_from_slice(&[1, 2, 3, 4]);
    data.extend_from_slice(&[10, 0, 20, 0]);
    data.extend_from_slice(&[0x34, 0x12, 0x78, 0x56]);
    let mut reader = ByteReader::new(data);
    let mut id = FieldStringId::default();
    id.read(&mut reader).unwrap();
    assert_eq!(id.0, -5);
    let mut small = FieldCharInteger::default();
    small.read(&mut reader).unwrap();
    assert_eq!(small.0, -128);
    let mut short = FieldShortInteger::default();
    short.read(&mut reader).unwrap();
    assert_eq!(short.0, -300);
    let mut wide = FieldInt64Integer::default();
    wide.read(&mut reader).unwrap();
    assert_eq!(wide.0, i64::MIN);
    let mut word = FieldWordInteger::default();
    word.read(&mut reader).unwrap();
    assert_eq!(word.0, 0xBEEF);
    let mut qword = FieldQwordInteger::default();
    qword.read(&mut reader).unwrap();
    assert_eq!(qword.0, u64::MAX);
    let mut color = FieldARGBColor::default();
    color.read(&mut reader).unwrap();
    assert_eq!(color, FieldARGBColor { r: 1, g: 2, b: 3, a: 4 });
    let mut point = FieldPoint2D::default();
    point.read(&mut reader).unwrap();
    assert_eq!(point, FieldPoint2D { x: 10, y: 20 });
    let mut bounds = FieldShortBounds::default();
    bounds.read(&mut reader).unwrap();
    assert_eq!(bounds, FieldShortBounds { min: 0x1234, max: 0x5678 });
    assert_eq!(
        bounds.read(&mut reader),
        Err(Error::ReadError(ReadFailure::UnexpectedEof))
    );
}

#[test]
fn real_fields_hold_the_bits_of_the_number() {
    let numbers = [1.5f32, -0.25, 3.0e10, f32::MIN_POSITIVE, 0.0, -7.0, 100.125];
    let mut data = Vec::new();
    for number in numbers {
        data.extend_from_slice(&number.to_le_bytes());
    }
    data.extend_from_slice(&f32::NAN.to_le_bytes());
    let mut reader = ByteReader::new(data.clone());
    let mut real = FieldReal::default();
    real.read(&mut reader).unwrap();
    assert_eq!(f32::from_bits(real.0), 1.5);
    let mut point = FieldRealPoint3D::default();
    point.read(&mut reader).unwrap();
    assert_eq!(f32::from_bits(point.x), -0.25);
    assert_eq!(f32::from_bits(point.y), 3.0e10);
    assert_eq!(f32::from_bits(point.z), f32::MIN_POSITIVE);
    assert_eq!(reader.stream_position(), 16);
    reader.seek(4);
    let mut plane = FieldRealPlane3D::default();
    plane.read(&mut reader).unwrap();
    assert_eq!(f32::from_bits(plane.d), 0.0);
    let mut color = FieldRealARGBColor::default();
    reader.seek(12);
    color.read(&mut reader).unwrap();
    assert_eq!(f32::from_bits(color.a), f32::MIN_POSITIVE);
    assert_eq!(f32::from_bits(color.b), 100.125);
    let mut bounds = FieldAngleBounds::default();
    reader.seek(24);
    bounds.read(&mut reader).unwrap();
    assert_eq!(f32::from_bits(bounds.min), 100.125);
    assert!(f32::from_bits(bounds.max).is_nan());
    assert_eq!(bounds.max, f32::NAN.to_bits());
}

#[test]
fn string_fields_have_their_fixed_length() {
    let mut data = vec![b'a'; 32];
    data.extend_from_slice(&[b'b'; 256]);
    let mut reader = ByteReader::new(data);
    let mut short = FieldString::default();
    short.read(&mut reader).unwrap();
    assert_eq!(short.0, "a".repeat(32));
    let mut long = FieldLongString::default();
    long.read(&mut reader).unwrap();
    assert_eq!(long.0, "b".repeat(256));
    assert_eq!(reader.stream_position(), 288);
    reader.seek(256);
    assert_eq!(
        long.read(&mut reader),
        Err(Error::ReadError(ReadFailure::UnexpectedEof))
    );
    assert_eq!(short.read(&mut reader), Ok(()));
    assert_eq!(short.0, "b".repeat(32));
    let mut reader = ByteReader::new(vec![0x80; 32]);
    assert_eq!(short.read(&mut reader), Err(Error::Utf8ReadingError));
    // An error leaves the string as it was.
    assert_eq!(short.0, "b".repeat(32));
    assert_eq!(long.0, "b".repeat(256));
}

#[test]
fn padding_is_passed_over() {
    let mut reader = ByteReader::new(vec![1, 2, 3]);
    assert_eq!(FieldPad.read(&mut reader, 200), Ok(()));
    assert_eq!(reader.stream_position(), 200);
    assert_eq!(FieldPad.read(&mut reader, 0), Ok(()));
    reader.seek(u64::MAX - 5);
    assert_eq!(
        FieldPad.read(&mut reader, 6),
        Err(Error::ReadError(ReadFailure::InvalidSeek))
    );
    assert_eq!(FieldPad.read(&mut reader, 5), Ok(()));
}

fn reference_bytes(global_id: i32, group: &[u8; 4]) -> Vec<u8> {
    let mut b = Vec::new();
    b.extend_from_slice(&0x1111u64.to_le_bytes());
    b.extend_from_slice(&global_id.to_le_bytes());
    b.extend_from_slice(&0x2222u64.to_le_bytes());
    b.extend_from_slice(group);
    b.extend_from_slice(&(-9i32).to_le_bytes());
    b
}

#[test]
fn references_turn_their_group_round() {
    let mut reader = ByteReader::new(reference_bytes(77, b"dhsm"));
    let mut reference = FieldReference::default();
    reference.read(&mut reader).unwrap();
    assert_eq!(
        reference,
        FieldReference {
            type_info: 0x1111,
            global_id: 77,
            asset_id: 0x2222,
            group: "mshd".to_string(),
            local_handle: -9,
        }
    );
    assert_eq!(reader.stream_position(), 28);
    let mut reader = ByteReader::new(reference_bytes(-1, &[0xFF; 4]));
    reference.read(&mut reader).unwrap();
    assert_eq!(reference.group, "");
    let mut reader = ByteReader::new(reference_bytes(-1, &[0xC0, 0x41, 0x41, 0x41])[..24].to_vec());
    assert_eq!(reference.read(&mut reader), Err(Error::Utf8ReadingError));
    let mut reader = ByteReader::new(reference_bytes(1, b"abcd")[..27].to_vec());
    assert_eq!(
        reference.read(&mut reader),
        Err(Error::ReadError(ReadFailure::UnexpectedEof))
    );
}

fn any_tag_bytes(tag_id: i32) -> Vec<u8> {
    let mut b = Vec::new();
    b.extend_from_slice(&0xDEADu64.to_le_bytes());
    b.extend_from_slice(&tag_id.to_le_bytes());
    b.extend_from_slice(&0x55i32.to_le_bytes());
    b
}

#[test]
fn any_tag_holds_the_id_of_the_tag() {
    let mut reader = ByteReader::new(any_tag_bytes(0x1234_5678));
    let mut any_tag = AnyTag::default();
    any_tag.read(&mut reader).unwrap();
    assert_eq!(
        any_tag,
        AnyTag {
            vtable_space: 0xDEAD,
            internal_struct: AnyTagGuts {
                tag_id: 0x1234_5678,
                local_tag_handle: 0x55
            },
        }
    );
    assert_eq!(
        any_tag.read(&mut reader),
        Err(Error::ReadError(ReadFailure::UnexpectedEof))
    );
}

const PARAMETER_SIZE: u64 = 0x9C;

#[derive(Debug, Default)]
struct MaterialParameter {
    name: FieldStringId,
    value: FieldReal,
    pixels: FieldData,
}

impl TagStructure for MaterialParameter {
    fn size(&mut self) -> u64 {
        PARAMETER_SIZE
    }

    fn read(&mut self, reader: &mut ByteReader) -> Result<()> {
        let main_offset = reader.stream_position();
        reader.seek(main_offset);
        self.name.read(reader)?;
        reader.seek(main_offset + 0x10);
        self.value.read(reader)?;
        reader.seek(main_offset + 0x20);
        self.pixels.read(reader)?;
        reader.seek(main_offset + PARAMETER_SIZE);
        Ok(())
    }

    fn offsets(&self) -> Vec<(String, u64)> {
        vec![
            ("name".to_string(), 0),
            ("value".to_string(), 0x10),
            ("pixels".to_string(), 0x20),
        ]
    }

    fn load_field_blocks(
        &mut self,
        source_index: i32,
        parent_index: usize,
        _adjusted_base: u64,
        reader: &mut ByteReader,
        tag_file: &TagFile,
    ) -> Result<()> {
        self.pixels.load_data(reader, source_index, parent_index, tag_file)
    }
}

#[derive(Debug, Default)]
struct MaterialTag {
    any_tag: AnyTag,
    material_shader: FieldReference,
    material_parameters: FieldBlock<MaterialParameter>,
}

impl TagStructure for MaterialTag {
    fn size(&mut self) -> u64 {
        0x88
    }

    fn read(&mut self, reader: &mut ByteReader) -> Result<()> {
        let main_offset = reader.stream_position();
        reader.seek(main_offset);
        self.any_tag.read(reader)?;
        reader.seek(main_offset + 0x10);
        self.material_shader.read(reader)?;
        reader.seek(main_offset + 0x2C);
        self.material_parameters.read(reader)?;
        reader.seek(main_offset + 0x88);
        Ok(())
    }

    fn offsets(&self) -> Vec<(String, u64)> {
        vec![
            ("any_tag".to_string(), 0),
            ("material_shader".to_string(), 0x10),
            ("material_parameters".to_string(), 0x2C),
        ]
    }

    fn load_field_blocks(
        &mut self,
        source_index: i32,
        _parent_index: usize,
        adjusted_base: u64,
        reader: &mut ByteReader,
        tag_file: &TagFile,
    ) -> Result<()> {
        self.material_parameters
            .load_blocks(source_index, adjusted_base + 0x2C, reader, tag_file)
    }
}

fn parameter_layout() -> Layout {
    Layout {
        size: PARAMETER_SIZE,
        fields: vec![
            FieldDecl { name: "name".to_string(), offset: 0, kind: FieldKind::StringId },
            FieldDecl { name: "value".to_string(), offset: 0x10, kind: FieldKind::Real },
            FieldDecl { name: "pixels".to_string(), offset: 0x20, kind: FieldKind::Data },
        ],
    }
}

fn material_layout() -> Layout {
    Layout {
        size: 0x88,
        fields: vec![
            FieldDecl { name: "any_tag".to_string(), offset: 0, kind: FieldKind::AnyTag },
            FieldDecl {
                name: "material_shader".to_string(),
                offset: 0x10,
                kind: FieldKind::Reference,
            },
            FieldDecl {
                name: "material_parameters".to_string(),
                offset: 0x2C,
                kind: FieldKind::Block(parameter_layout()),
            },
        ],
    }
}

fn block_head(size: u32) -> Vec<u8> {
    let mut b = Vec::new();
    b.extend_from_slice(&0x7001u64.to_le_bytes());
    b.extend_from_slice(&0x7002u64.to_le_bytes());
    b.extend_from_slice(&size.to_le_bytes());
    b
}

fn data_head(size: u32) -> Vec<u8> {
    let mut b = Vec::new();
    b.extend_from_slice(&0x8001u64.to_le_bytes());
    b.extend_from_slice(&0x8002u64.to_le_bytes());
    b.extend_from_slice(&0x8003u32.to_le_bytes());
    b.extend_from_slice(&size.to_le_bytes());
    b
}

fn put(data: &mut Vec<u8>, at: usize, bytes: &[u8]) {
    if data.len() < at + bytes.len() {
        data.resize(at + bytes.len(), 0);
    }
    data[at..at + bytes.len()].copy_from_slice(bytes);
}

/// A material tag with `count` parameters. The main struct lies at
/// `main_at` in the tag data, the parameters at `parameters_at`, and the
/// pixels of the parameters in two datablocks of four bytes each.
fn material_payload(tag_id: i32, count: u32, main_at: u64, parameters_at: u64) -> Vec<u8> {
    let mut data = Vec::new();
    let main = main_at as usize;
    put(&mut data, main, &any_tag_bytes(tag_id));
    put(&mut data, main + 0x10, &reference_bytes(42, b"dhsm"));
    put(&mut data, main + 0x2C, &block_head(count));
    put(&mut data, main + 0x87, &[0]);
    for i in 0..count as usize {
        let at = parameters_at as usize + i * PARAMETER_SIZE as usize;
        put(&mut data, at, &(1000 + i as i32).to_le_bytes());
        put(&mut data, at + 0x10, &(i as f32 + 0.5).to_le_bytes());
        put(&mut data, at + 0x20, &data_head(4));
        put(&mut data, at + PARAMETER_SIZE as usize - 1, &[0]);
    }
    let pixels_at = data.len();
    data.extend_from_slice(&[0xA0, 0xA1, 0xA2, 0xA3, 0xB0, 0xB1, 0xB2, 0xB3]);
    tag_bytes(
        &[
            datablock(0x88, 1, main_at),
            datablock(count * PARAMETER_SIZE as u32, 1, parameters_at),
            datablock(4, 1, pixels_at as u64),
            datablock(4, 1, pixels_at as u64 + 4),
        ],
        &[
            tag_struct(1, 0, -1, 0, 0x2C),
            tag_struct(0, 0, 0, -1, 0),
            tag_struct(1, 0, 1, 0, 0x2C),
        ],
        &[
            data_reference(2, 1, 0x20),
            data_reference(9, 0, 0),
            data_reference(3, 1, 0x20 + PARAMETER_SIZE as u32),
        ],
        data.len() as u32,
        0,
        &data,
    )
}

#[test]
fn declarative_read() {
    let mut file = loaded(material_payload(0x1234_5678, 3, 0, 0x88), 0, 0x1234_5678).unwrap();
    assert!(file.can_read_metadata());
    let material = file.read_metadata::<MaterialTag>().unwrap();
    assert_eq!(material.any_tag.internal_struct.tag_id, file.tag_id);
    assert_eq!(material.material_shader.global_id, 42);
    assert_eq!(material.material_shader.group, "mshd");
    assert_eq!(material.material_parameters.size, 3);
    assert_eq!(material.material_parameters.field_offset, 0x2C);
    assert_eq!(material.material_parameters.elements.len(), 3);
    for (i, parameter) in material.material_parameters.elements.iter().enumerate() {
        assert_eq!(parameter.name.0, 1000 + i as i32);
        assert_eq!(f32::from_bits(parameter.value.0), i as f32 + 0.5);
        assert_eq!(parameter.pixels.size, 4);
    }
    // Element i takes the reference number i of the parameters' datablock.
    assert_eq!(
        material.material_parameters.elements[0].pixels.data,
        vec![0xA0, 0xA1, 0xA2, 0xA3]
    );
    assert_eq!(
        material.material_parameters.elements[1].pixels.data,
        vec![0xB0, 0xB1, 0xB2, 0xB3]
    );
    assert_eq!(material.material_parameters.elements[2].pixels.data, vec![]);
    // The payload is used up: a second read finds no bytes.
    assert_eq!(
        file.read_metadata::<MaterialTag>().err(),
        Some(Error::ReadError(ReadFailure::UnexpectedEof))
    );
}

#[test]
fn declarative_read_by_layout() {
    let mut file = loaded(material_payload(-3, 3, 0x40, 0x100), 0, -3).unwrap();
    assert!(file.can_read_metadata());
    let layout = material_layout();
    let record = file.read_metadata_as(&layout).unwrap();
    assert_eq!(record.values.len(), 3);
    match &record.values[0] {
        FieldValue::AnyTag(any_tag) => assert_eq!(any_tag.internal_struct.tag_id, -3),
        other => panic!("unexpected value {:?}", other),
    }
    match &record.values[1] {
        FieldValue::Reference(reference) => assert_eq!(reference.group, "mshd"),
        other => panic!("unexpected value {:?}", other),
    }
    let block = match &record.values[2] {
        FieldValue::Block(block) => block,
        other => panic!("unexpected value {:?}", other),
    };
    assert_eq!(block.size, 3);
    assert_eq!(block.field_offset, 0x40 + 0x2C);
    assert_eq!(block.elements.len(), 3);
    for (i, element) in block.elements.iter().enumerate() {
        match &element.values[0] {
            FieldValue::StringId(name) => assert_eq!(name.0, 1000 + i as i32),
            other => panic!("unexpected value {:?}", other),
        }
        match &element.values[1] {
            FieldValue::Real(value) => assert_eq!(f32::from_bits(value.0), i as f32 + 0.5),
            other => panic!("unexpected value {:?}", other),
        }
    }
    let pixels: Vec<Vec<u8>> = block
        .elements
        .iter()
        .map(|element| match &element.values[2] {
            FieldValue::Data(data) => data.data.clone(),
            other => panic!("unexpected value {:?}", other),
        })
        .collect();
    assert_eq!(
        pixels,
        vec![vec![0xA0, 0xA1, 0xA2, 0xA3], vec![0xB0, 0xB1, 0xB2, 0xB3], vec![]]
    );
    assert_eq!(layout.size(), 0x88);
    assert_eq!(
        layout.offsets(),
        vec![
            ("any_tag".to_string(), 0),
            ("material_shader".to_string(), 0x10),
            ("material_parameters".to_string(), 0x2C)
        ]
    );
    assert_eq!(
        extract_field_maps(&layout.fields),
        (
            vec![
                "any_tag".to_string(),
                "material_shader".to_string(),
                "material_parameters".to_string()
            ],
            vec![0, 0x10, 0x2C]
        )
    );
}

#[test]
fn empty_block_is_left_alone() {
    let mut file = loaded(material_payload(1, 0, 0, 0x88), 0, 1).unwrap();
    let material = file.read_metadata::<MaterialTag>().unwrap();
    assert_eq!(material.material_parameters.size, 0);
    assert!(material.material_parameters.elements.is_empty());
    let tag = TagFile::default();
    let mut block: FieldBlock<MaterialParameter> = FieldBlock::default();
    let mut reader = ByteReader::new(vec![1, 2, 3]);
    reader.seek(2);
    assert_eq!(block.load_blocks(0, 0, &mut reader, &tag), Ok(()));
    assert_eq!(reader.stream_position(), 2);
    // A block that nothing roots is left alone as well.
    block.size = 5;
    assert_eq!(block.load_blocks(0, 0, &mut reader, &tag), Ok(()));
    assert_eq!(reader.stream_position(), 2);
    assert!(block.elements.is_empty());
}

#[test]
fn block_whose_elements_are_not_there_fails() {
    let mut payload = material_payload(1, 3, 0, 0x88);
    payload.truncate(payload.len() - 8 - 0x9C);
    let mut file = loaded(payload.clone(), 0, 1).unwrap();
    assert_eq!(
        file.read_metadata::<MaterialTag>().err(),
        Some(Error::ReadError(ReadFailure::UnexpectedEof))
    );
    let mut file = loaded(payload, 0, 1).unwrap();
    assert_eq!(
        file.read_metadata_as(&material_layout()).err(),
        Some(Error::ReadError(ReadFailure::UnexpectedEof))
    );
}

#[test]
fn metadata_needs_payload_tag_and_main_struct() {
    let mut file = ModuleFileEntry::default();
    assert_eq!(
        file.read_metadata::<MaterialTag>().err(),
        Some(Error::TagError(TagError::NotLoaded))
    );
    assert_eq!(
        file.read_metadata_as(&material_layout()).err(),
        Some(Error::TagError(TagError::NotLoaded))
    );
    // A raw file has a payload, but no tag.
    let mut file = loaded(vec![1, 2, 3], RAW_FILE, 5).unwrap();
    assert!(file.is_loaded);
    assert_eq!(
        file.read_metadata::<MaterialTag>().err(),
        Some(Error::TagError(TagError::NoTagInfo))
    );
    assert_eq!(
        file.read_metadata_as(&material_layout()).err(),
        Some(Error::TagError(TagError::NoTagInfo))
    );
    let payload = tag_bytes(
        &[datablock(8, 1, 0)],
        &[tag_struct(1, 0, 0, 0, 0), tag_struct(3, 0, 0, 0, 0)],
        &[],
        8,
        0,
        &[0; 8],
    );
    let mut file = loaded(payload, 0, 5).unwrap();
    assert_eq!(file.tag_info.as_ref().unwrap().count_main_structs(), 0);
    assert_eq!(
        file.read_metadata::<MaterialTag>().err(),
        Some(Error::TagError(TagError::MainStructNotFound))
    );
}

#[test]
fn metadata_cannot_be_read_where_the_main_struct_has_no_datablock() {
    let payload = tag_bytes(&[], &[tag_struct(0, 0, 0, -1, 0)], &[], 0, 0, &[]);
    let file = loaded(payload, 0, 5).unwrap();
    assert!(!file.can_read_metadata());
    let payload = tag_bytes(&[datablock(0, 1, 0)], &[tag_struct(0, 0, -1, -1, 0)], &[], 0, 0, &[]);
    let file = loaded(payload, 0, 5).unwrap();
    assert!(!file.can_read_metadata());
    let payload = tag_bytes(
        &[datablock(0, 1, 1 << 63)],
        &[tag_struct(0, 0, 0, -1, 0)],
        &[],
        0,
        0,
        &[],
    );
    let mut file = loaded(payload, 0, 5).unwrap();
    assert!(file.can_read_metadata());
    assert_eq!(
        file.read_metadata::<MaterialTag>().err(),
        Some(Error::TryFromIntError)
    );
}

#[derive(Debug, Default)]
struct TwoData {
    first: FieldData,
    second: FieldData,
}

impl TagStructure for TwoData {
    fn size(&mut self) -> u64 {
        0x2C4
    }

    fn read(&mut self, reader: &mut ByteReader) -> Result<()> {
        let main_offset = reader.stream_position();
        reader.seek(main_offset + 0x294);
        self.first.read(reader)?;
        reader.seek(main_offset + 0x2AC);
        self.second.read(reader)?;
        reader.seek(main_offset + 0x2C4);
        Ok(())
    }

    fn offsets(&self) -> Vec<(String, u64)> {
        vec![("first".to_string(), 0x294), ("second".to_string(), 0x2AC)]
    }

    fn load_field_blocks(
        &mut self,
        source_index: i32,
        parent_index: usize,
        _adjusted_base: u64,
        reader: &mut ByteReader,
        tag_file: &TagFile,
    ) -> Result<()> {
        self.first.load_data(reader, source_index, 2 * parent_index, tag_file)?;
        self.second.load_data(reader, source_index, 2 * parent_index + 1, tag_file)
    }
}

fn two_data_payload() -> Vec<u8> {
    let mut data = vec![0u8; 0x2C4];
    put(&mut data, 0x294, &data_head(3));
    put(&mut data, 0x2AC, &data_head(5));
    data.extend_from_slice(b"first data");
    data.extend_from_slice(b"second data");
    tag_bytes(
        &[
            datablock(0x2C4, 1, 0),
            datablock(10, 1, 0x2C4),
            datablock(11, 1, 0x2C4 + 10),
        ],
        &[tag_struct(0, 0, 0, -1, 0)],
        &[
            data_reference(2, 7, 0x294),
            data_reference(1, 0, 0x294),
            data_reference(2, 0, 0x2AC),
        ],
        data.len() as u32,
        0,
        &data,
    )
}

#[test]
fn data_reference_materialization() {
    let mut file = loaded(two_data_payload(), 0, 5).unwrap();
    let read = file.read_metadata::<TwoData>().unwrap();
    assert_eq!(read.first.size, 3);
    assert_eq!(read.second.size, 5);
    // The fields take the references of the main struct's datablock in the
    // order in which they are declared, each as many bytes as its own head
    // says.
    assert_eq!(read.first.data, b"fir".to_vec());
    assert_eq!(read.second.data, b"secon".to_vec());
    let layout = Layout {
        size: 0x2C4,
        fields: vec![
            FieldDecl { name: "first".to_string(), offset: 0x294, kind: FieldKind::Data },
            FieldDecl { name: "second".to_string(), offset: 0x2AC, kind: FieldKind::Data },
        ],
    };
    let mut file = loaded(two_data_payload(), 0, 5).unwrap();
    let record = file.read_metadata_as(&layout).unwrap();
    match (&record.values[0], &record.values[1]) {
        (FieldValue::Data(first), FieldValue::Data(second)) => {
            assert_eq!(first.data, b"fir".to_vec());
            assert_eq!(second.data, b"secon".to_vec());
        }
        other => panic!("unexpected values {:?}", other),
    }
}

#[test]
fn data_is_taken_from_the_reference_with_the_ordinal_asked_for() {
    let mut file = loaded(two_data_payload(), 0, 5).unwrap();
    let tag = file.tag_info.take().unwrap();
    assert_eq!(tag.select_data_reference(0, 0), Some(1));
    assert_eq!(tag.select_data_reference(0, 1), Some(2));
    assert_eq!(tag.select_data_reference(0, 2), None);
    assert_eq!(tag.select_data_reference(7, 0), Some(0));
    assert_eq!(tag.select_data_reference(8, 0), None);
    let mut reader = ByteReader::new(file.data_stream.take().unwrap().read_to_end());
    reader.seek(17);
    let mut field = FieldData::default();
    field.size = 11;
    assert_eq!(field.load_data(&mut reader, 0, 1, &tag), Ok(()));
    assert_eq!(field.data, b"second data".to_vec());
    assert_eq!(reader.stream_position(), 17);
    assert_eq!(field.load_data(&mut reader, 0, 2, &tag), Ok(()));
    assert_eq!(field.data, b"second data".to_vec());
    field.size = 12;
    assert_eq!(
        field.load_data(&mut reader, 0, 1, &tag),
        Err(Error::ReadError(ReadFailure::UnexpectedEof))
    );
}

#[test]
fn data_reference_without_target_loads_nothing() {
    let mut tag = TagFile::default();
    for target in [-1, -2, 5] {
        tag.data_references.push(TagDataReference {
            parent_struct_index: 0,
            unknown: 0,
            target_index: target,
            field_block: 3,
            field_offset: 0,
        });
    }
    let mut reader = ByteReader::new(vec![1, 2, 3]);
    let mut field = FieldData::default();
    field.size = 2;
    assert_eq!(field.load_data(&mut reader, 3, 0, &tag), Ok(()));
    assert_eq!(field.load_data(&mut reader, 3, 1, &tag), Err(Error::TryFromIntError));
    assert_eq!(field.load_data(&mut reader, 3, 2, &tag), Ok(()));
    assert_eq!(field.data, Vec::<u8>::new());
}

#[derive(Debug, Default)]
struct Pair {
    left: FieldWordInteger,
    right: FieldWordInteger,
}

impl TagStructure for Pair {
    fn size(&mut self) -> u64 {
        6
    }

    fn read(&mut self, reader: &mut ByteReader) -> Result<()> {
        let main_offset = reader.stream_position();
        self.left.read(reader)?;
        reader.seek(main_offset + 4);
        self.right.read(reader)?;
        reader.seek(main_offset + 6);
        Ok(())
    }

    fn offsets(&self) -> Vec<(String, u64)> {
        vec![("left".to_string(), 0), ("right".to_string(), 4)]
    }

    fn load_field_blocks(
        &mut self,
        _source_index: i32,
        _parent_index: usize,
        _adjusted_base: u64,
        _reader: &mut ByteReader,
        _tag_file: &TagFile,
    ) -> Result<()> {
        Ok(())
    }
}

fn pair_layout() -> Layout {
    Layout {
        size: 6,
        fields: vec![
            FieldDecl { name: "left".to_string(), offset: 0, kind: FieldKind::WordInteger },
            FieldDecl { name: "right".to_string(), offset: 4, kind: FieldKind::WordInteger },
        ],
    }
}

#[test]
fn arrays_hold_records_one_after_another() {
    let data: Vec<u8> = (0..20).collect();
    let mut reader = ByteReader::new(data.clone());
    reader.seek(1);
    let mut array: FieldArray<Pair> = FieldArray::default();
    assert_eq!(array.read(&mut reader, 3), Ok(()));
    assert_eq!(reader.stream_position(), 19);
    let read: Vec<(u16, u16)> = array.elements.iter().map(|p| (p.left.0, p.right.0)).collect();
    assert_eq!(read, vec![(0x0201, 0x0605), (0x0807, 0x0C0B), (0x0E0D, 0x1211)]);
    assert_eq!(
        array.read(&mut reader, 1),
        Err(Error::ReadError(ReadFailure::UnexpectedEof))
    );
    assert_eq!(array.elements.len(), 3);
    assert_eq!(
        array.load_blocks(&mut reader, 0, 0, &TagFile::default()),
        Ok(())
    );
    let layout = Layout {
        size: 20,
        fields: vec![FieldDecl {
            name: "pairs".to_string(),
            offset: 1,
            kind: FieldKind::Array(pair_layout(), 3),
        }],
    };
    let mut reader = ByteReader::new(data);
    let record: Record = layout.read(&mut reader).unwrap();
    assert_eq!(reader.stream_position(), 20);
    let records = match &record.values[0] {
        FieldValue::Array(records) => records,
        other => panic!("unexpected value {:?}", other),
    };
    let read: Vec<(u16, u16)> = records
        .iter()
        .map(|r| match (&r.values[0], &r.values[1]) {
            (FieldValue::WordInteger(left), FieldValue::WordInteger(right)) => (left.0, right.0),
            other => panic!("unexpected values {:?}", other),
        })
        .collect();
    assert_eq!(read, vec![(0x0201, 0x0605), (0x0807, 0x0C0B), (0x0E0D, 0x1211)]);
}

#[test]
fn layouts_read_every_kind_at_its_offset() {
    let kinds = vec![
        (FieldKind::Pad(7), 0u64),
        (FieldKind::CharEnum, 3),
        (FieldKind::ShortEnum, 4),
        (FieldKind::LongFlags, 6),
        (FieldKind::ByteFlags, 10),
        (FieldKind::RGBColor, 11),
        (FieldKind::RealVector2D, 15),
        (FieldKind::TagResource(pair_layout()), 23),
        (FieldKind::Int64Integer, 39),
        (FieldKind::CustomShortBlockIndex, 47),
    ];
    let layout = Layout {
        size: 64,
        fields: kinds
            .into_iter()
            .enumerate()
            .map(|(i, (kind, offset))| FieldDecl { name: format!("f{}", i), offset, kind })
            .collect(),
    };
    let data: Vec<u8> = (0..49).collect();
    let mut reader = ByteReader::new(data);
    let record = layout.read(&mut reader).unwrap();
    assert_eq!(reader.stream_position(), 64);
    assert!(matches!(record.values[0], FieldValue::Pad));
    assert!(matches!(record.values[1], FieldValue::CharEnum(3)));
    assert!(matches!(record.values[2], FieldValue::ShortEnum(0x0504)));
    assert!(matches!(record.values[3], FieldValue::LongFlags(0x0908_0706)));
    assert!(matches!(record.values[4], FieldValue::ByteFlags(10)));
    match &record.values[5] {
        FieldValue::RGBColor(color) => assert_eq!((color.r, color.g, color.b, color.a), (11, 12, 13, 14)),
        other => panic!("unexpected value {:?}", other),
    }
    match &record.values[6] {
        FieldValue::RealVector2D(vector) => {
            assert_eq!(vector.x, 0x1211_100F);
            assert_eq!(vector.y, 0x1615_1413);
        }
        other => panic!("unexpected value {:?}", other),
    }
    match &record.values[7] {
        FieldValue::TagResource(resource) => {
            assert_eq!(resource.block, 0x1E1D_1C1B_1A19_1817);
            assert_eq!(resource.handle, 0x2221_201F);
            assert_eq!(resource.resource_index, 0x2625_2423);
            assert!(resource.data.values.is_empty());
        }
        other => panic!("unexpected value {:?}", other),
    }
    match &record.values[8] {
        FieldValue::Int64Integer(number) => assert_eq!(number.0, 0x2E2D_2C2B_2A29_2827),
        other => panic!("unexpected value {:?}", other),
    }
    match &record.values[9] {
        FieldValue::CustomShortBlockIndex(index) => assert_eq!(index.0, 0x302F),
        other => panic!("unexpected value {:?}", other),
    }
    // One byte less and the last field is not there.
    let mut reader = ByteReader::new((0..48).collect());
    assert_eq!(
        layout.read(&mut reader).err(),
        Some(Error::ReadError(ReadFailure::UnexpectedEof))
    );
}

#[test]
fn layouts_refuse_places_outside_the_range_of_positions() {
    let layout = Layout {
        size: 16,
        fields: vec![FieldDecl { name: "far".to_string(), offset: 10, kind: FieldKind::Pad(0) }],
    };
    let mut reader = ByteReader::new(vec![]);
    reader.seek(u64::MAX - 16);
    assert!(layout.read(&mut reader).is_ok());
    assert_eq!(reader.stream_position(), u64::MAX);
    reader.seek(u64::MAX - 15);
    assert_eq!(
        layout.read(&mut reader).err(),
        Some(Error::ReadError(ReadFailure::InvalidSeek))
    );
    reader.seek(u64::MAX - 9);
    assert_eq!(
        layout.read(&mut reader).err(),
        Some(Error::ReadError(ReadFailure::InvalidSeek))
    );
}

#[derive(Debug, Default)]
struct WithResource {
    resource: FieldTagResource<Pair>,
}

impl TagStructure for WithResource {
    fn size(&mut self) -> u64 {
        16
    }

    fn read(&mut self, reader: &mut ByteReader) -> Result<()> {
        let main_offset = reader.stream_position();
        self.resource.read(reader)?;
        reader.seek(main_offset + 16);
        Ok(())
    }

    fn offsets(&self) -> Vec<(String, u64)> {
        vec![("resource".to_string(), 0)]
    }

    fn load_field_blocks(
        &mut self,
        _source_index: i32,
        _parent_index: usize,
        adjusted_base: u64,
        reader: &mut ByteReader,
        tag_file: &TagFile,
    ) -> Result<()> {
        self.resource.load_resource(adjusted_base, reader, tag_file)
    }
}

fn resource_payload(target: i32) -> Vec<u8> {
    let mut data = vec![0u8; 16];
    put(&mut data, 12, &9u32.to_le_bytes());
    data.extend_from_slice(&[0x11; 8]);
    data.extend_from_slice(&[1, 0, 0xEE, 0xEE, 2, 0]);
    tag_bytes(
        &[datablock(16, 1, 0), datablock(6, 2, 8)],
        &[
            tag_struct(0, 0, 0, -1, 0),
            tag_struct(2, 0, 1, 0, 0),
            tag_struct(3, 0, target, 0, 0),
        ],
        &[],
        16,
        14,
        &data,
    )
}

#[test]
fn resources_are_read_at_their_section() {
    // The datablock of the resource lies 8 bytes into the resource data,
    // which follows the 16 bytes of tag data.
    let mut file = loaded(resource_payload(1), 0, 5).unwrap();
    let read = file.read_metadata::<WithResource>().unwrap();
    assert_eq!(read.resource.resource_index, 9);
    assert_eq!((read.resource.data.left.0, read.resource.data.right.0), (1, 2));
    let layout = Layout {
        size: 16,
        fields: vec![FieldDecl {
            name: "resource".to_string(),
            offset: 0,
            kind: FieldKind::TagResource(pair_layout()),
        }],
    };
    let mut file = loaded(resource_payload(1), 0, 5).unwrap();
    let record = file.read_metadata_as(&layout).unwrap();
    match &record.values[0] {
        FieldValue::TagResource(resource) => {
            assert!(matches!(resource.data.values[0], FieldValue::WordInteger(ref n) if n.0 == 1));
            assert!(matches!(resource.data.values[1], FieldValue::WordInteger(ref n) if n.0 == 2));
        }
        other => panic!("unexpected value {:?}", other),
    }
    let mut file = loaded(resource_payload(-1), 0, 5).unwrap();
    assert_eq!(
        file.read_metadata::<WithResource>().err(),
        Some(Error::TryFromIntError)
    );
    let mut file = loaded(resource_payload(2), 0, 5).unwrap();
    let read = file.read_metadata::<WithResource>().unwrap();
    assert_eq!((read.resource.data.left.0, read.resource.data.right.0), (0, 0));
}

#[test]
fn struct_lookups_take_the_first_that_fits() {
    let mut tag = TagFile::default();
    for (kind, target, block, offset) in [
        (TagStructType::TagBlock, -1, 2, 8),
        (TagStructType::Custom, 3, 2, 8),
        (TagStructType::MainStruct, 4, 2, 8),
        (TagStructType::MainStruct, 5, -1, 0),
        (TagStructType::Custom, 6, 0, 0),
    ] {
        tag.struct_definitions.push(TagStruct {
            guid: 0,
            struct_type: kind,
            location: TagStructLocation::Internal,
            target_index: target,
            field_block: block,
            field_offset: offset,
        });
    }
    assert_eq!(tag.find_block_struct(2, 8), Some(1));
    assert_eq!(tag.find_block_struct(2, 9), None);
    assert_eq!(tag.find_block_struct(2, 8 + (1 << 32)), None);
    assert_eq!(tag.find_block_struct(-1, 0), Some(3));
    assert_eq!(tag.find_resource_struct(8), Some(1));
    assert_eq!(tag.find_resource_struct(0), Some(4));
    assert_eq!(tag.find_resource_struct(1), None);
    assert_eq!(tag.main_struct_index(), Some(2));
    assert_eq!(tag.count_main_structs(), 2);
}

#[test]
fn any_tag_is_a_structure_of_its_own() {
    let mut file = loaded(material_payload(0x0BAD_F00D, 2, 0x10, 0x100), 0, 0x0BAD_F00D).unwrap();
    let any_tag = file.read_metadata::<AnyTag>().unwrap();
    assert_eq!(any_tag.internal_struct.tag_id, file.tag_id);
    assert_eq!(any_tag.vtable_space, 0xDEAD);
    let mut probe = AnyTag::default();
    assert_eq!(TagStructure::size(&mut probe), 16);
    assert_eq!(
        TagStructure::offsets(&probe),
        vec![("vtable_space".to_string(), 0), ("internal_struct".to_string(), 8)]
    );
    // Where the bytes hold another id, so does the field.
    let mut file = loaded(material_payload(7, 0, 0, 0x88), 0, 8).unwrap();
    let any_tag = file.read_metadata::<AnyTag>().unwrap();
    assert_eq!(any_tag.internal_struct.tag_id, 7);
    assert_ne!(any_tag.internal_struct.tag_id, file.tag_id);
}

fn nested_layout() -> Layout {
    let leaf = Layout {
        size: 4,
        fields: vec![FieldDecl { name: "n".to_string(), offset: 0, kind: FieldKind::DwordInteger }],
    };
    let middle = Layout {
        size: 24,
        fields: vec![
            FieldDecl { name: "tag".to_string(), offset: 0, kind: FieldKind::ByteInteger },
            FieldDecl { name: "leaves".to_string(), offset: 4, kind: FieldKind::Block(leaf) },
        ],
    };
    Layout {
        size: 20,
        fields: vec![FieldDecl {
            name: "middles".to_string(),
            offset: 0,
            kind: FieldKind::Block(middle),
        }],
    }
}

/// A tag whose main struct holds a block of two records, each of which
/// holds a block of numbers: two for the first, `second` for the second.
fn nested_payload(second: u32) -> Vec<u8> {
    let mut data = Vec::new();
    put(&mut data, 0, &block_head(2));
    put(&mut data, 20, &[0xA1]);
    put(&mut data, 24, &block_head(2));
    put(&mut data, 44, &[0xA2]);
    put(&mut data, 48, &block_head(second));
    for (i, n) in [11u32, 12, 21, 22, 23].iter().enumerate() {
        put(&mut data, 68 + 4 * i, &n.to_le_bytes());
    }
    tag_bytes(
        &[
            datablock(20, 1, 0),
            datablock(48, 1, 20),
            datablock(8, 1, 68),
            datablock(12, 1, 76),
        ],
        &[
            tag_struct(0, 0, 0, -1, 0),
            tag_struct(1, 0, 1, 0, 0),
            tag_struct(1, 0, 2, 1, 4),
            tag_struct(1, 0, 3, 1, 28),
        ],
        &[],
        data.len() as u32,
        0,
        &data,
    )
}

fn numbers(record: &Record) -> Vec<u32> {
    match &record.values[1] {
        FieldValue::Block(block) => block
            .elements
            .iter()
            .map(|leaf| match &leaf.values[0] {
                FieldValue::DwordInteger(n) => n.0,
                other => panic!("unexpected value {:?}", other),
            })
            .collect(),
        other => panic!("unexpected value {:?}", other),
    }
}

#[test]
fn blocks_inside_blocks_are_rooted_at_their_place_in_the_datablock() {
    let mut file = loaded(nested_payload(3), 0, 1).unwrap();
    let record = file.read_metadata_as(&nested_layout()).unwrap();
    let middles = match &record.values[0] {
        FieldValue::Block(block) => &block.elements,
        other => panic!("unexpected value {:?}", other),
    };
    assert_eq!(middles.len(), 2);
    assert!(matches!(middles[0].values[0], FieldValue::ByteInteger(ref n) if n.0 == 0xA1));
    assert!(matches!(middles[1].values[0], FieldValue::ByteInteger(ref n) if n.0 == 0xA2));
    // The block of the second record stands at 24 + 4 in its datablock.
    assert_eq!(numbers(&middles[0]), vec![11, 12]);
    assert_eq!(numbers(&middles[1]), vec![21, 22, 23]);
}

#[test]
fn an_element_that_cannot_be_loaded_fails_the_whole_read() {
    let mut file = loaded(nested_payload(4), 0, 1).unwrap();
    assert_eq!(
        file.read_metadata_as(&nested_layout()).err(),
        Some(Error::ReadError(ReadFailure::UnexpectedEof))
    );
}

#[test]
fn layout_blocks_are_left_alone_like_typed_blocks() {
    let layout = pair_layout();
    let tag = TagFile::default();
    let mut reader = ByteReader::new(block_head(0));
    let mut value = FieldKind::Block(pair_layout()).read(&mut reader).unwrap();
    assert_eq!(reader.stream_position(), 20);
    match &mut value {
        FieldValue::Block(block) => {
            assert_eq!(layout.load_blocks(block, 0, 0, &mut reader, &tag), Ok(()));
            assert_eq!(reader.stream_position(), 20);
            block.size = 9;
            assert_eq!(layout.load_blocks(block, 0, 0, &mut reader, &tag), Ok(()));
            assert_eq!(reader.stream_position(), 20);
            assert!(block.elements.is_empty());
        }
        other => panic!("unexpected value {:?}", other),
    }
}

#[test]
fn data_fields_of_block_elements_take_their_references_element_by_element() {
    // Two elements, each with two data fields of one byte.
    let element = Layout {
        size: 48,
        fields: vec![
            FieldDecl { name: "a".to_string(), offset: 0, kind: FieldKind::Data },
            FieldDecl { name: "n".to_string(), offset: 24, kind: FieldKind::ByteInteger },
            FieldDecl { name: "b".to_string(), offset: 24, kind: FieldKind::Data },
        ],
    };
    let layout = Layout {
        size: 20,
        fields: vec![FieldDecl {
            name: "elements".to_string(),
            offset: 0,
            kind: FieldKind::Block(element),
        }],
    };
    assert_eq!(layout.count_data_fields(), 0);
    let mut data = Vec::new();
    put(&mut data, 0, &block_head(2));
    for i in 0..4 {
        put(&mut data, 20 + 24 * i, &data_head(1));
    }
    data.extend_from_slice(b"wxyz");
    let references: Vec<Vec<u8>> = (0..4).map(|n| data_reference(2 + n, 1, 0)).collect();
    let payload = tag_bytes(
        &[
            datablock(20, 1, 0),
            datablock(96, 1, 20),
            datablock(1, 1, 116),
            datablock(1, 1, 117),
            datablock(1, 1, 118),
            datablock(1, 1, 119),
        ],
        &[tag_struct(0, 0, 0, -1, 0), tag_struct(1, 0, 1, 0, 0)],
        &references,
        data.len() as u32,
        0,
        &data,
    );
    let mut file = loaded(payload, 0, 1).unwrap();
    let record = file.read_metadata_as(&layout).unwrap();
    let elements = match &record.values[0] {
        FieldValue::Block(block) => &block.elements,
        other => panic!("unexpected value {:?}", other),
    };
    let bytes: Vec<(Vec<u8>, Vec<u8>)> = elements
        .iter()
        .map(|e| match (&e.values[0], &e.values[2]) {
            (FieldValue::Data(a), FieldValue::Data(b)) => (a.data.clone(), b.data.clone()),
            other => panic!("unexpected values {:?}", other),
        })
        .collect();
    assert_eq!(
        bytes,
        vec![(b"w".to_vec(), b"x".to_vec()), (b"y".to_vec(), b"z".to_vec())]
    );
}

#[test]
fn any_tag_as_a_structure_reads_all_or_nothing() {
    let mut reader = ByteReader::new(any_tag_bytes(9)[..12].to_vec());
    let mut any_tag = AnyTag::default();
    assert_eq!(
        TagStructure::read(&mut any_tag, &mut reader),
        Err(Error::ReadError(ReadFailure::UnexpectedEof))
    );
    assert_eq!(any_tag, AnyTag::default());
    assert_eq!(reader.stream_position(), 0);
    let mut reader = ByteReader::new(any_tag_bytes(9));
    assert_eq!(TagStructure::read(&mut any_tag, &mut reader), Ok(()));
    assert_eq!(any_tag.internal_struct.tag_id, 9);
    assert_eq!(reader.stream_position(), 16);
    assert_eq!(
        TagStructure::load_field_blocks(&mut any_tag, 1, 2, 3, &mut reader, &TagFile::default()),
        Ok(())
    );
    assert_eq!(reader.stream_position(), 16);
}

#[test]
fn blocks_stop_at_the_first_element_that_cannot_be_read() {
    let mut payload = material_payload(1, 3, 0, 0x88);
    payload.truncate(payload.len() - 8 - 0x9C);
    let mut file = loaded(payload, 0, 1).unwrap();
    let tag = file.tag_info.take().unwrap();
    let mut reader = ByteReader::new(file.data_stream.take().unwrap().read_to_end());
    let mut block: FieldBlock<MaterialParameter> = FieldBlock::default();
    block.size = 3;
    assert_eq!(
        block.load_blocks(0, 0x2C, &mut reader, &tag),
        Err(Error::ReadError(ReadFailure::UnexpectedEof))
    );
    // Two elements were read; the third was not, and nothing was loaded.
    assert_eq!(block.elements.len(), 2);
    assert_eq!(block.elements[1].name.0, 1001);
    assert!(block.elements[0].pixels.data.is_empty());
}
