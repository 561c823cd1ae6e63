use byteframe::stream::{ByteReader, ByteWriter};
use byteframe::traits::{ReadAs, WriteObj};

#[test]
fn round_trip_unsigned() {
    let mut w = ByteWriter::new();
    w.write_obj(&0xFEu8).unwrap();
    w.write_obj(&0x5678u16).unwrap();
    w.write_obj(&0x90AB_CDEFu32).unwrap();
    w.write_obj(&0x1234_5678_90AB_CDEFu64).unwrap();
    let mut r = ByteReader::new(w.into_vec());
    assert_eq!(r.read_as::<u8>().unwrap(), 0xFE);
    assert_eq!(r.read_as::<u16>().unwrap(), 0x5678);
    assert_eq!(r.read_as::<u32>().unwrap(), 0x90AB_CDEF);
    assert_eq!(r.read_as::<u64>().unwrap(), 0x1234_5678_90AB_CDEF);
}

#[test]
fn round_trip_signed() {
    let mut w = ByteWriter::new();
    w.write_obj(&-1i8).unwrap();
    w.write_obj(&-2i16).unwrap();
    w.write_obj(&-123_456_789i32).unwrap();
    w.write_obj(&-1_234_567_890_123_456_789i64).unwrap();
    w.write_obj(&i64::MIN).unwrap();
    w.write_obj(&127i8).unwrap();
    let mut r = ByteReader::new(w.into_vec());
    assert_eq!(r.read_as::<i8>().unwrap(), -1);
    assert_eq!(r.read_as::<i16>().unwrap(), -2);
    assert_eq!(r.read_as::<i32>().unwrap(), -123_456_789);
    assert_eq!(r.read_as::<i64>().unwrap(), -1_234_567_890_123_456_789);
    assert_eq!(r.read_as::<i64>().unwrap(), i64::MIN);
    assert_eq!(r.read_as::<i8>().unwrap(), 127);
}

#[test]
fn round_trip_ascii_char() {
    let mut w = ByteWriter::new();
    w.write_obj(&'a').unwrap();
    w.write_obj(&'Z').unwrap();
    w.write_obj(&'\n').unwrap();
    let mut r = ByteReader::new(w.into_vec());
    assert_eq!(r.read_as::<char>().unwrap(), 'a');
    assert_eq!(r.read_as::<char>().unwrap(), 'Z');
    assert_eq!(r.read_as::<char>().unwrap(), '\n');
}

#[test]
fn writes_report_their_length() {
    let mut w = ByteWriter::new();
    assert_eq!(w.write_obj(&1u8).unwrap(), 1);
    assert_eq!(w.write_obj(&1u16).unwrap(), 2);
    assert_eq!(w.write_obj(&1u32).unwrap(), 4);
    assert_eq!(w.write_obj(&1u64).unwrap(), 8);
    assert_eq!(w.write_obj(&-1i32).unwrap(), 4);
    assert_eq!(w.into_vec().len(), 19);
}

#[test]
fn encodings_are_little_endian() {
    let mut w = ByteWriter::new();
    w.write_obj(&0x1234u16).unwrap();
    assert_eq!(w.into_vec(), vec![0x34, 0x12]);
    let mut w = ByteWriter::new();
    w.write_obj(&-2i64).unwrap();
    assert_eq!(
        w.into_vec(),
        vec![0xFE, 0xFF, 0xFF, 0xFF, 0xFF, 0xFF, 0xFF, 0xFF]
    );
}
