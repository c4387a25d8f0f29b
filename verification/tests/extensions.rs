use byteorder::ByteOrder;
use infinite_rs::common::errors::{Error, ModuleError, ReadFailure};
use infinite_rs::common::extensions::{reversed, BufReaderExt, ByteReader, Enumerable};
use infinite_rs::module::block::ModuleBlockEntry;

/// Verifies that reading 0xFFFFFFFF returns an empty string, which is used
/// to handle empty `tag_group` entries in module files.
#[test]
fn test_read_fixed_string_empty() {
    let data = [255, 255, 255, 255];
    let mut reader = ByteReader::new(data.to_vec());
    let string = reader.read_fixed_string(data.len()).unwrap();
    assert_eq!(string, "");
}

#[test]
fn fixed_string_reads_exactly_the_length_asked_for() {
    let mut reader = ByteReader::new(b"I love cats!...".to_vec());
    let string = reader.read_fixed_string(12).unwrap();
    assert_eq!(string, "I love cats!");
    assert_eq!(reader.stream_position(), 12);
}

#[test]
fn fixed_string_of_five_ff_bytes_is_no_marker() {
    let mut reader = ByteReader::new(vec![255, 255, 255, 255, 255]);
    assert_eq!(reader.read_fixed_string(5), Err(Error::Utf8ReadingError));
}

#[test]
fn fixed_string_rejects_invalid_utf8() {
    let mut reader = ByteReader::new(vec![0x61, 0xC3, 0x28, 0x62]);
    assert_eq!(reader.read_fixed_string(4), Err(Error::Utf8ReadingError));
    assert_eq!(reader.stream_position(), 4);
}

#[test]
fn fixed_string_decodes_multibyte_characters() {
    let mut reader = ByteReader::new("h\u{e9}!".as_bytes().to_vec());
    assert_eq!(reader.read_fixed_string(4).unwrap(), "h\u{e9}!");
}

#[test]
fn fixed_string_fails_at_the_end_and_stays() {
    let mut reader = ByteReader::new(vec![0x61, 0x62]);
    assert_eq!(
        reader.read_fixed_string(3),
        Err(Error::ReadError(ReadFailure::UnexpectedEof))
    );
    assert_eq!(reader.stream_position(), 0);
}

#[test]
fn null_terminated_string_stops_at_the_terminator() {
    let data = [
        0x49, 0x20, 0x6c, 0x6f, 0x76, 0x65, 0x20, 0x63, 0x61, 0x74, 0x73, 0x21, 0x00, 0x41,
    ];
    let mut reader = ByteReader::new(data.to_vec());
    assert_eq!(reader.read_null_terminated_string().unwrap(), "I love cats!");
    assert_eq!(reader.stream_position(), 13);
    assert_eq!(reader.read_u8(), Ok(0x41));
}

#[test]
fn null_terminated_string_without_terminator_loses_its_last_byte() {
    let mut reader = ByteReader::new(b"abc".to_vec());
    assert_eq!(reader.read_null_terminated_string().unwrap(), "ab");
    assert_eq!(reader.stream_position(), 3);
}

#[test]
fn null_terminated_string_at_the_end_is_empty() {
    let mut reader = ByteReader::new(b"abc".to_vec());
    reader.seek(3);
    assert_eq!(reader.read_null_terminated_string().unwrap(), "");
    reader.seek(10);
    assert_eq!(reader.read_null_terminated_string().unwrap(), "");
    assert_eq!(reader.stream_position(), 10);
}

#[test]
fn null_terminated_string_rejects_invalid_utf8() {
    let mut reader = ByteReader::new(vec![0xFF, 0x00]);
    assert_eq!(
        reader.read_null_terminated_string(),
        Err(Error::Utf8ReadingError)
    );
}

#[test]
fn reversed_turns_characters_round_not_bytes() {
    assert_eq!(reversed(" tam"), "mat ");
    assert_eq!(reversed("a\u{e9}b"), "b\u{e9}a");
    assert_eq!(reversed(""), "");
}

#[test]
fn integers_are_little_endian() {
    let data: Vec<u8> = (1..=16).collect();
    let mut reader = ByteReader::new(data.clone());
    assert_eq!(reader.read_u16(), Ok(0x0201));
    reader.rewind();
    assert_eq!(reader.read_u32(), Ok(0x0403_0201));
    reader.rewind();
    assert_eq!(reader.read_u64(), Ok(0x0807_0605_0403_0201));
    reader.rewind();
    assert_eq!(reader.read_u128(), Ok(0x100F_0E0D_0C0B_0A09_0807_0605_0403_0201));
    assert_eq!(reader.stream_position(), 16);
}

#[test]
fn signed_integers_are_twos_complement() {
    let mut reader = ByteReader::new(vec![0xFF; 16]);
    assert_eq!(reader.read_i8(), Ok(-1));
    reader.rewind();
    assert_eq!(reader.read_i16(), Ok(-1));
    reader.rewind();
    assert_eq!(reader.read_i32(), Ok(-1));
    reader.rewind();
    assert_eq!(reader.read_i64(), Ok(-1));
    reader.rewind();
    assert_eq!(reader.read_i128(), Ok(-1));
    let mut reader = ByteReader::new(vec![0x00, 0x80, 0xFE, 0xFF, 0xFF, 0xFF, 0x80]);
    assert_eq!(reader.read_i16(), Ok(i16::MIN));
    assert_eq!(reader.read_i32(), Ok(-2));
    assert_eq!(reader.read_i8(), Ok(i8::MIN));
}

#[test]
fn integers_agree_with_byteorder() {
    let data: Vec<u8> = vec![0x78, 0x56, 0x34, 0x12, 0xEF, 0xCD, 0xAB, 0x89];
    let mut reader = ByteReader::new(data.clone());
    assert_eq!(
        reader.read_u32().unwrap(),
        byteorder::LittleEndian::read_u32(&data)
    );
    assert_eq!(
        reader.read_i32().unwrap(),
        byteorder::LittleEndian::read_i32(&data[4..])
    );
    reader.rewind();
    assert_eq!(
        reader.read_u64().unwrap(),
        byteorder::BigEndian::read_u64(&data).swap_bytes()
    );
}

#[test]
fn a_failed_read_leaves_the_reader_as_it_was() {
    let mut reader = ByteReader::new(vec![1, 2, 3]);
    assert_eq!(reader.read_u8(), Ok(1));
    assert_eq!(
        reader.read_u32(),
        Err(Error::ReadError(ReadFailure::UnexpectedEof))
    );
    assert_eq!(reader.stream_position(), 1);
    assert_eq!(reader.read_u16(), Ok(0x0302));
    assert_eq!(
        reader.read_u8(),
        Err(Error::ReadError(ReadFailure::UnexpectedEof))
    );
}

#[test]
fn seeking_beyond_the_end_succeeds_and_reading_there_fails() {
    let mut reader = ByteReader::new(vec![1, 2, 3]);
    reader.seek(100);
    assert_eq!(reader.stream_position(), 100);
    assert_eq!(reader.read_exact(0), Ok(vec![]));
    assert_eq!(
        reader.read_exact(1),
        Err(Error::ReadError(ReadFailure::UnexpectedEof))
    );
    assert_eq!(reader.read_to_end(), Vec::<u8>::new());
    assert_eq!(reader.stream_position(), 100);
}

#[test]
fn relative_seeks_fail_outside_the_range_of_positions() {
    let mut reader = ByteReader::new(vec![1, 2, 3]);
    assert_eq!(reader.seek_relative(2), Ok(()));
    assert_eq!(reader.seek_relative(-2), Ok(()));
    assert_eq!(
        reader.seek_relative(-1),
        Err(Error::ReadError(ReadFailure::InvalidSeek))
    );
    assert_eq!(reader.stream_position(), 0);
    reader.seek(u64::MAX - 1);
    assert_eq!(reader.seek_relative(1), Ok(()));
    assert_eq!(
        reader.seek_relative(1),
        Err(Error::ReadError(ReadFailure::InvalidSeek))
    );
    assert_eq!(reader.seek_relative(i64::MIN), Ok(()));
    assert_eq!(reader.stream_position(), u64::MAX - (1u64 << 63));
}

#[test]
fn read_until_includes_the_delimiter() {
    let mut reader = ByteReader::new(vec![5, 6, 7, 6, 8]);
    assert_eq!(reader.read_until(6), vec![5, 6]);
    assert_eq!(reader.read_until(6), vec![7, 6]);
    assert_eq!(reader.read_until(6), vec![8]);
    assert_eq!(reader.read_until(6), Vec::<u8>::new());
    assert_eq!(reader.stream_position(), 5);
}

#[test]
fn read_enumerable_reads_in_stream_order() {
    let mut data = Vec::new();
    for n in 0u32..3 {
        for field in [n, n + 10, n + 20, n + 30, n % 2] {
            data.extend_from_slice(&field.to_le_bytes());
        }
    }
    let mut reader = ByteReader::new(data);
    let blocks = reader.read_enumerable::<ModuleBlockEntry>(3).unwrap();
    assert_eq!(blocks.len(), 3);
    for (n, block) in blocks.iter().enumerate() {
        let n = n as u32;
        assert_eq!(
            *block,
            ModuleBlockEntry {
                compressed_offset: n,
                compressed_size: n + 10,
                decompressed_offset: n + 20,
                decompressed_size: n + 30,
                is_compressed: n % 2 == 1,
            }
        );
    }
    assert_eq!(reader.stream_position(), 60);
    assert_eq!(reader.read_enumerable::<ModuleBlockEntry>(0).unwrap(), vec![]);
}

#[test]
fn read_enumerable_stops_at_the_first_error() {
    let mut data = vec![0u8; 40];
    data[36] = 2;
    let mut reader = ByteReader::new(data.clone());
    assert_eq!(
        reader.read_enumerable::<ModuleBlockEntry>(2).err(),
        Some(Error::ModuleError(ModuleError::IncorrectCompressedValue))
    );
    data[36] = 1;
    let mut reader = ByteReader::new(data);
    assert_eq!(
        reader.read_enumerable::<ModuleBlockEntry>(3).err(),
        Some(Error::ReadError(ReadFailure::UnexpectedEof))
    );
}

#[derive(Default)]
struct TestType {
    value: u32,
}

impl Enumerable for TestType {
    fn read(&mut self, reader: &mut ByteReader) -> Result<(), Error> {
        self.value = reader.read_u32()?;
        Ok(())
    }
}

#[test]
fn read_enumerable_reads_types_of_the_user() {
    let data = b"\x01\x00\x00\x00\x02\x00\x00\x00\x03\x00\x00\x00";
    let mut reader = ByteReader::new(data.to_vec());
    let enumerables = reader.read_enumerable::<TestType>(3).unwrap();
    assert_eq!(enumerables.len(), 3);
    assert_eq!(enumerables[0].value, 1);
    assert_eq!(enumerables[1].value, 2);
    assert_eq!(enumerables[2].value, 3);
}
