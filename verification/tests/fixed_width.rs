use hematite::protocol::data_types::angle::Angle;
use hematite::protocol::data_types::array::Array;
use hematite::protocol::ser_de::de::Deserialize;
use hematite::protocol::ser_de::reader::Reader;
use hematite::protocol::ser_de::ser::Serialize;

#[test]
fn test_angle_deserialization_eof() {
    let empty_payload: Vec<u8> = vec![];
    let mut reader = Reader::new(empty_payload);

    let result = Angle::deserialize(&mut reader);
    assert!(result.is_err());
}

#[test]
fn angle_is_one_byte_on_the_wire() {
    let mut buf = Vec::new();
    Angle(192).serialize(&mut buf).unwrap();
    assert_eq!(buf, vec![192u8]);
    assert_eq!(Angle::deserialize(&mut Reader::new(buf)).unwrap(), Angle(192));
}

#[test]
fn test_standard_case() {
    let input = Array([1u16, 2, 3, 4, 5]);
    let mut writer = Vec::new();
    input.serialize(&mut writer).unwrap();

    assert_eq!(
        writer,
        vec![0x00, 0x01, 0x00, 0x02, 0x00, 0x03, 0x00, 0x04, 0x00, 0x05]
    );

    let mut reader = Reader::new(writer);
    let deserialized = Array::<u16, 5>::deserialize(&mut reader).unwrap();
    assert_eq!(deserialized, input);
}

#[test]
#[should_panic]
fn test_wrong_length() {
    let input = vec![0x00u8, 0x05];
    let mut reader = Reader::new(input);

    Array::<u8, 4>::deserialize(&mut reader).unwrap();
}

#[test]
fn test_num_serialization_works() {
    let mut writer = Vec::new();
    16u8.serialize(&mut writer).unwrap();
    assert_eq!(writer, vec![16]);
}

#[test]
fn test_roundtrip_u16() {
    let mut writer = Vec::new();
    500u16.serialize(&mut writer).unwrap();

    let mut bytes = Reader::new(writer);
    let value = u16::deserialize(&mut bytes).unwrap();
    assert_eq!(value, 500);
}

#[test]
fn test_roundtrip_i32() {
    let mut writer = Vec::new();
    (-12345i32).serialize(&mut writer).unwrap();

    let mut bytes = Reader::new(writer);
    let value = i32::deserialize(&mut bytes).unwrap();
    assert_eq!(value, -12345);
}

#[test]
fn test_big_endian_encoding() {
    let mut writer = Vec::new();
    0x0102u16.serialize(&mut writer).unwrap();
    assert_eq!(writer, vec![0x01, 0x02]);
}

#[test]
fn test_deserialize_updates_slice() {
    let mut data = Reader::new(vec![0x00, 0x10, 0xFF]);
    let value = u16::deserialize(&mut data).unwrap();

    assert_eq!(value, 16);
    assert_eq!(data.remaining(), vec![0xFF]);
}

#[test]
fn test_multiple_values() {
    let mut data = Reader::new(vec![
        0x00, 0x0A, // 10u16
        0x00, 0x14, // 20u16
    ]);

    let a = u16::deserialize(&mut data).unwrap();
    let b = u16::deserialize(&mut data).unwrap();

    assert_eq!(a, 10);
    assert_eq!(b, 20);
    assert!(data.is_empty());
}

#[test]
fn test_max_min_values() {
    let mut writer = Vec::new();
    i64::MAX.serialize(&mut writer).unwrap();
    let mut max = Reader::new(writer.clone());
    assert_eq!(i64::deserialize(&mut max).unwrap(), i64::MAX);

    writer.clear();

    let mut writer = Vec::new();
    i64::MIN.serialize(&mut writer).unwrap();
    let mut min = Reader::new(writer.clone());
    assert_eq!(i64::deserialize(&mut min).unwrap(), i64::MIN);

    writer.clear();

    i32::MAX.serialize(&mut writer).unwrap();
    let mut max = Reader::new(writer.clone());
    assert_eq!(i32::deserialize(&mut max).unwrap(), i32::MAX);

    writer.clear();

    i32::MIN.serialize(&mut writer).unwrap();
    let mut min = Reader::new(writer.clone());
    assert_eq!(i32::deserialize(&mut min).unwrap(), i32::MIN);
}

#[test]
#[should_panic]
fn test_insufficient_bytes_panics() {
    let mut data = Reader::new(vec![0x01]);
    let _ = u16::deserialize(&mut data).unwrap();
}

#[test]
fn test_incorrect_size_usage() {
    let mut writer = Vec::new();
    0x0102u16.serialize(&mut writer).unwrap();
    let mut bytes = Reader::new(writer);
    let value = u16::deserialize(&mut bytes).unwrap();

    assert_eq!(value, 0x0102);
}

#[test]
fn test_consecutive_writes() {
    let mut writer = Vec::new();
    0x12u16.serialize(&mut writer).unwrap();
    0x13u16.serialize(&mut writer).unwrap();
    assert_eq!(writer, vec![0x00, 0x12, 0x00, 0x13]);
}

#[test]
fn test_consecutive_reads() {
    let data = vec![0x00, 0x12, 0x00, 0x13];
    let mut reader = Reader::new(data);

    let first = u16::deserialize(&mut reader).unwrap();
    assert_eq!(first, 0x12);

    let second = u16::deserialize(&mut reader).unwrap();
    assert_eq!(second, 0x13);
}

#[test]
fn signed_bytes_and_shorts_roundtrip() {
    let mut writer = Vec::new();
    (-2i8).serialize(&mut writer).unwrap();
    (-300i16).serialize(&mut writer).unwrap();
    assert_eq!(writer, vec![0xfe, 0xfe, 0xd4]);
    let mut reader = Reader::new(writer);
    assert_eq!(i8::deserialize(&mut reader).unwrap(), -2);
    assert_eq!(i16::deserialize(&mut reader).unwrap(), -300);
}
