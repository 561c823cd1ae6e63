use byteframe::errors::{DecodeError, ErrorKind};
use byteframe::metadata::anchor::Anchor;
use byteframe::metadata::field_description::{FieldDescription, Flags, StructuralRole};
use byteframe::metadata::list_frame::ListFrame;
use byteframe::metadata::record_frame::RecordFrame;
use byteframe::stream::ByteReader;
use byteframe::traits::ReadAs;

#[test]
fn test_read_basic_types() {
    let data: Vec<u8> = vec![
        0x61, // 'a'
        0xFF, // i8 = -1
        0xFE, // u8 = 254
        0x34, 0x12, // i16 = 0x1234
        0x78, 0x56, // u16 = 0x5678
        0x78, 0x56, 0x34, 0x12, // i32 = 0x12345678
        0xEF, 0xCD, 0xAB, 0x90, // u32 = 0x90ABCDEF
        0xEF, 0xCD, 0xAB, 0x90, 0x78, 0x56, 0x34, 0x12, // i64 = 0x1234567890ABCDEF
        0xEF, 0xCD, 0xAB, 0x90, 0x78, 0x56, 0x34, 0x12, // u64 = 0x1234567890ABCDEF
        0x66, 0xE6, 0x40, 0x46, // f32 = 12345.6
        0xA1, 0xF8, 0x31, 0xE6, 0xD6, 0x1C, 0xC8, 0x40, // f64 = 12345.6789
        0x05, 0x00, 0x00, 0x00, // string length = 5
        b'H', b'e', b'l', b'l', b'o', // "Hello"
    ];
    let mut cursor = ByteReader::new(data);

    assert_eq!(cursor.read_as::<char>().unwrap(), 'a');
    assert_eq!(cursor.read_as::<i8>().unwrap(), -1);
    assert_eq!(cursor.read_as::<u8>().unwrap(), 254);
    assert_eq!(cursor.read_as::<i16>().unwrap(), 0x1234);
    assert_eq!(cursor.read_as::<u16>().unwrap(), 0x5678);
    assert_eq!(cursor.read_as::<i32>().unwrap(), 0x12345678);
    assert_eq!(cursor.read_as::<u32>().unwrap(), 0x90ABCDEF);
    assert_eq!(cursor.read_as::<i64>().unwrap(), 0x1234567890ABCDEF);
    assert_eq!(cursor.read_as::<u64>().unwrap(), 0x1234567890ABCDEF);
    // The float codecs live outside the verified library; their bit patterns
    // still decode through the unsigned codecs of the same width.
    assert_eq!(f32::from_bits(cursor.read_as::<u32>().unwrap()), 12345.6);
    assert_eq!(f64::from_bits(cursor.read_as::<u64>().unwrap()), 12345.6789);
    assert_eq!(cursor.read_as::<String>().unwrap(), "Hello");
}

#[test]
fn test_read_anchor() {
    let data: Vec<u8> = vec![
        0, 1, 0, 0, 0, 0, 0, 0, 0, 0, 0, 0, 0, 0, 1, 10, 0, 0, 0, 0, 0, 0, 1, 63, 0, 0, 0, 0, 0,
        0, 3, 229, 0, 0, 0, 0, 0, 0, 95, 184, 0, 0, 0, 0, 0, 0, 0, 84, 0, 0, 0, 0, 0, 0, 0, 148,
        0, 0, 0, 0, 64, 0, 0, 0,
    ];
    let mut cursor = ByteReader::new(data);
    let anchor = cursor.read_as::<Anchor>().unwrap();
    assert_eq!(anchor.version_epoch, 1);
    assert_eq!(anchor.version_major, 0);
    assert_eq!(anchor.version_minor, 0);
    assert_eq!(anchor.version_patch, 0);
    assert_eq!(anchor.seek_header, 266);
    assert_eq!(anchor.nbytes_header, 319);
    assert_eq!(anchor.len_header, 997);
    assert_eq!(anchor.seek_footer, 24504);
    assert_eq!(anchor.nbytes_footer, 84);
    assert_eq!(anchor.len_footer, 148);
    assert_eq!(anchor.max_key_size, 1073741824);
}

#[test]
fn truncated_primitives_fail_io_kind() {
    assert_eq!(
        ByteReader::new(vec![]).read_as::<u8>().unwrap_err(),
        DecodeError::UnexpectedEnd
    );
    assert_eq!(
        ByteReader::new(vec![]).read_as::<char>().unwrap_err(),
        DecodeError::UnexpectedEnd
    );
    assert_eq!(
        ByteReader::new(vec![1]).read_as::<u16>().unwrap_err(),
        DecodeError::UnexpectedEnd
    );
    assert_eq!(
        ByteReader::new(vec![1]).read_as::<i16>().unwrap_err(),
        DecodeError::UnexpectedEnd
    );
    assert_eq!(
        ByteReader::new(vec![1, 2, 3]).read_as::<u32>().unwrap_err(),
        DecodeError::UnexpectedEnd
    );
    assert_eq!(
        ByteReader::new(vec![1, 2, 3]).read_as::<i32>().unwrap_err(),
        DecodeError::UnexpectedEnd
    );
    assert_eq!(
        ByteReader::new(vec![1, 2, 3, 4, 5, 6, 7]).read_as::<u64>().unwrap_err(),
        DecodeError::UnexpectedEnd
    );
    assert_eq!(
        ByteReader::new(vec![1, 2, 3, 4, 5, 6, 7]).read_as::<i64>().unwrap_err(),
        DecodeError::UnexpectedEnd
    );
    assert_eq!(DecodeError::UnexpectedEnd.kind(), ErrorKind::Io);
}

#[test]
fn truncated_composites_fail_io_kind() {
    let anchor_bytes: Vec<u8> = vec![0; 63];
    assert_eq!(
        ByteReader::new(anchor_bytes).read_as::<Anchor>().unwrap_err(),
        DecodeError::UnexpectedEnd
    );
    let fd_bytes: Vec<u8> = vec![0; 10];
    assert_eq!(
        ByteReader::new(fd_bytes).read_as::<FieldDescription>().unwrap_err(),
        DecodeError::UnexpectedEnd
    );
    // A valid role whose flag bytes are missing is still a short read.
    let fd_cut_flags: Vec<u8> = vec![0, 0, 0, 0, 0, 0, 0, 0, 0, 0, 0, 0, 2, 0, 7];
    assert_eq!(
        ByteReader::new(fd_cut_flags).read_as::<FieldDescription>().unwrap_err(),
        DecodeError::UnexpectedEnd
    );
    let frame_bytes: Vec<u8> = vec![0; 7];
    assert_eq!(
        ByteReader::new(frame_bytes.clone()).read_as::<RecordFrame<u32>>().unwrap_err(),
        DecodeError::UnexpectedEnd
    );
    assert_eq!(
        ByteReader::new(frame_bytes).read_as::<ListFrame<u8>>().unwrap_err(),
        DecodeError::UnexpectedEnd
    );
    // A list frame whose third item is missing fails mid-run.
    let list_cut: Vec<u8> = vec![
        0xFE, 0xFF, 0xFF, 0xFF, 0xFF, 0xFF, 0xFF, 0xFF, // size = -2
        0x03, 0x00, 0x00, 0x00, // count = 3
        0x01, 0x02, // only two items
    ];
    assert_eq!(
        ByteReader::new(list_cut).read_as::<ListFrame<u8>>().unwrap_err(),
        DecodeError::UnexpectedEnd
    );
}

#[test]
fn string_zero_length_yields_empty() {
    let mut cursor = ByteReader::new(vec![0x00, 0x00, 0x00, 0x00]);
    assert_eq!(cursor.read_as::<String>().unwrap(), "");
    assert_eq!(cursor.position(), 4);
}

#[test]
fn string_length_overrun_fails_io_kind() {
    let data: Vec<u8> = vec![0x05, 0x00, 0x00, 0x00, b'H', b'i'];
    let e = ByteReader::new(data).read_as::<String>().unwrap_err();
    assert_eq!(e, DecodeError::UnexpectedEnd);
    assert_eq!(e.kind(), ErrorKind::Io);
}

#[test]
fn string_invalid_utf8_fails_data_kind() {
    let data: Vec<u8> = vec![0x02, 0x00, 0x00, 0x00, 0xFF, 0xFE];
    let e = ByteReader::new(data).read_as::<String>().unwrap_err();
    assert_eq!(e, DecodeError::InvalidUtf8);
    assert_eq!(e.kind(), ErrorKind::InvalidData);
}

#[test]
fn structural_role_codes_map_exactly() {
    assert_eq!(StructuralRole::from_repr(0), Some(StructuralRole::Plain));
    assert_eq!(StructuralRole::from_repr(1), Some(StructuralRole::Collection));
    assert_eq!(StructuralRole::from_repr(2), Some(StructuralRole::Record));
    assert_eq!(StructuralRole::from_repr(3), Some(StructuralRole::Variant));
    assert_eq!(StructuralRole::from_repr(4), Some(StructuralRole::Streamer));
    assert_eq!(StructuralRole::from_repr(5), None);
    assert_eq!(StructuralRole::from_repr(0xFFFF), None);
}

#[test]
fn field_description_decodes_in_order() {
    let data: Vec<u8> = vec![
        0x07, 0x00, 0x00, 0x00, // field_version = 7
        0x09, 0x00, 0x00, 0x00, // type_version = 9
        0x03, 0x00, 0x00, 0x00, // parent_field_id = 3
        0x02, 0x00, // structural_role = Record
        0x07, 0x00, // flags = all three
    ];
    let mut cursor = ByteReader::new(data);
    let fd = cursor.read_as::<FieldDescription>().unwrap();
    assert_eq!(fd.field_version, 7);
    assert_eq!(fd.type_version, 9);
    assert_eq!(fd.parent_field_id, 3);
    assert_eq!(fd.structural_role, StructuralRole::Record);
    assert!(fd.flags.contains(Flags::repetitive()));
    assert!(fd.flags.contains(Flags::projected()));
    assert!(fd.flags.contains(Flags::checksum()));
    assert_eq!(cursor.position(), 16);
}

#[test]
fn invalid_structural_role_fails_with_code() {
    let data: Vec<u8> = vec![
        0x00, 0x00, 0x00, 0x00, 0x00, 0x00, 0x00, 0x00, 0x00, 0x00, 0x00, 0x00, // versions, parent
        0x07, 0x00, // structural_role = 7: not a role
        0x00, 0x00, // flags
    ];
    let e = ByteReader::new(data).read_as::<FieldDescription>().unwrap_err();
    assert_eq!(e, DecodeError::InvalidStructuralRole(7));
    assert_eq!(e.kind(), ErrorKind::InvalidData);
}

#[test]
fn flags_known_bits_kept_unknown_bits_dropped() {
    let all = Flags::from_bits_truncate(0x07);
    assert_eq!(all.bits(), 0x07);
    assert!(all.contains(Flags::repetitive()));
    assert!(all.contains(Flags::projected()));
    assert!(all.contains(Flags::checksum()));

    let unknown = Flags::from_bits_truncate(0xF8);
    assert!(unknown.is_empty());
    assert_eq!(unknown, Flags::empty());

    // Unknown bits never fail: a flag word of 0xF8 decodes cleanly.
    let data: Vec<u8> = vec![
        0x00, 0x00, 0x00, 0x00, 0x00, 0x00, 0x00, 0x00, 0x00, 0x00, 0x00, 0x00, 0x00, 0x00, 0xF8,
        0x00,
    ];
    let fd = ByteReader::new(data).read_as::<FieldDescription>().unwrap();
    assert!(fd.flags.is_empty());
}

#[test]
fn record_frame_positive_size_succeeds() {
    let data: Vec<u8> = vec![
        0x04, 0x00, 0x00, 0x00, 0x00, 0x00, 0x00, 0x00, // size = +4
        0xEF, 0xBE, 0xAD, 0xDE, // u32 = 0xDEADBEEF
    ];
    let mut cursor = ByteReader::new(data);
    let frame = cursor.read_as::<RecordFrame<u32>>().unwrap();
    assert_eq!(frame.size(), 4);
    assert_eq!(frame.content, 0xDEADBEEF);
}

#[test]
fn record_frame_negative_size_fails() {
    let data: Vec<u8> = vec![
        0xFC, 0xFF, 0xFF, 0xFF, 0xFF, 0xFF, 0xFF, 0xFF, // size = -4
        0xEF, 0xBE, 0xAD, 0xDE,
    ];
    let e = ByteReader::new(data).read_as::<RecordFrame<u32>>().unwrap_err();
    assert_eq!(e, DecodeError::NegativeFrameSize(-4));
    assert_eq!(e.kind(), ErrorKind::InvalidData);
}

#[test]
fn list_frame_negative_size_succeeds() {
    let data: Vec<u8> = vec![
        0xFE, 0xFF, 0xFF, 0xFF, 0xFF, 0xFF, 0xFF, 0xFF, // size = -2
        0x03, 0x00, 0x00, 0x00, // count = 3
        0x01, 0x02, 0x03,
    ];
    let mut cursor = ByteReader::new(data);
    let frame = cursor.read_as::<ListFrame<u8>>().unwrap();
    assert_eq!(frame.size(), 2);
    assert_eq!(frame.num_items(), 3);
    assert_eq!(frame.contents, vec![1, 2, 3]);
}

#[test]
fn list_frame_positive_size_fails() {
    let data: Vec<u8> = vec![
        0x02, 0x00, 0x00, 0x00, 0x00, 0x00, 0x00, 0x00, // size = +2
        0x03, 0x00, 0x00, 0x00, // count = 3
        0x01, 0x02, 0x03,
    ];
    let e = ByteReader::new(data).read_as::<ListFrame<u8>>().unwrap_err();
    assert_eq!(e, DecodeError::PositiveFrameSize(2));
    assert_eq!(e.kind(), ErrorKind::InvalidData);
}

#[test]
fn frames_nest_through_the_same_capability() {
    let data: Vec<u8> = vec![
        0xFF, 0xFF, 0xFF, 0xFF, 0xFF, 0xFF, 0xFF, 0xFF, // list size = -1
        0x01, 0x00, 0x00, 0x00, // count = 1
        0x02, 0x00, 0x00, 0x00, 0x00, 0x00, 0x00, 0x00, // record size = +2
        0x34, 0x12, // u16 = 0x1234
    ];
    let mut cursor = ByteReader::new(data);
    let frame = cursor.read_as::<ListFrame<RecordFrame<u16>>>().unwrap();
    assert_eq!(frame.size(), 1);
    assert_eq!(frame.num_items(), 1);
    assert_eq!(frame.contents[0].size(), 2);
    assert_eq!(frame.contents[0].content, 0x1234);
}

#[test]
fn list_frame_empty_run() {
    let data: Vec<u8> = vec![
        0x00, 0x00, 0x00, 0x00, 0x00, 0x00, 0x00, 0x00, // size = 0: non-positive
        0x00, 0x00, 0x00, 0x00, // count = 0
    ];
    let mut cursor = ByteReader::new(data);
    let frame = cursor.read_as::<ListFrame<u8>>().unwrap();
    assert_eq!(frame.size(), 0);
    assert_eq!(frame.num_items(), 0);
    assert!(frame.contents.is_empty());
}

#[test]
fn list_frame_most_negative_size_keeps_magnitude() {
    let data: Vec<u8> = vec![
        0x00, 0x00, 0x00, 0x00, 0x00, 0x00, 0x00, 0x80, // size = i64::MIN
        0x00, 0x00, 0x00, 0x00, // count = 0
    ];
    let frame = ByteReader::new(data).read_as::<ListFrame<u8>>().unwrap();
    assert_eq!(frame.size(), 0x8000_0000_0000_0000u64);
    assert_eq!(frame.num_items(), 0);
}

#[test]
fn string_multibyte_utf8_decodes() {
    let data: Vec<u8> = vec![0x03, 0x00, 0x00, 0x00, b'h', 0xC3, 0xA9];
    let mut cursor = ByteReader::new(data);
    assert_eq!(cursor.read_as::<String>().unwrap(), "h\u{e9}");
    assert_eq!(cursor.position(), 7);
}

#[test]
fn decode_advances_by_exactly_the_bytes_consumed() {
    let data: Vec<u8> = vec![0x34, 0x12, 0x78, 0x56, 0x00];
    let mut cursor = ByteReader::new(data);
    assert_eq!(cursor.position(), 0);
    assert_eq!(cursor.read_as::<u16>().unwrap(), 0x1234);
    assert_eq!(cursor.position(), 2);
    assert_eq!(cursor.read_as::<u16>().unwrap(), 0x5678);
    assert_eq!(cursor.position(), 4);
}
