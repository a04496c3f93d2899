use hematite::protocol::ser_de::de::{self, Deserialize};
use hematite::protocol::ser_de::reader::Reader;
use hematite::protocol::ser_de::ser::Serialize;

#[test]
fn test_serialization() {
    let mut writer = Vec::new();
    true.serialize(&mut writer).unwrap();
    assert_eq!(writer, vec![0x01]);

    let mut writer = Vec::new();
    false.serialize(&mut writer).unwrap();
    assert_eq!(writer, vec![0x00]);
}

#[test]
fn test_deserialization() {
    let input = vec![0x00, 0x01];
    let mut reader = Reader::new(input);

    assert!(!bool::deserialize(&mut reader).unwrap());
    assert!(bool::deserialize(&mut reader).unwrap());
}

#[test]
fn bool_other_bytes_are_syntax_errors() {
    let mut reader = Reader::new(vec![0x02]);
    assert_eq!(bool::deserialize(&mut reader), Err(de::Error::Syntax));
}

#[test]
fn test_none_works() {
    let mut writer = Vec::new();
    None::<u8>.serialize(&mut writer).unwrap();

    assert_eq!(writer, vec![0x00]);

    let mut reader = Reader::new(writer);
    let deserialized = Option::<u8>::deserialize(&mut reader).unwrap();
    assert_eq!(deserialized, None);
}

#[test]
fn test_some_works() {
    let mut writer = Vec::new();
    let input = Some(5u8);
    input.serialize(&mut writer).unwrap();

    assert_eq!(writer, vec![0x01, 0x05]);

    let mut reader = Reader::new(writer);
    let deserialized = Option::<u8>::deserialize(&mut reader).unwrap();
    assert_eq!(deserialized, input);
}

#[test]
fn test_it_works() {
    let input = vec![1u8, 2, 3, 4, 5];
    let mut writer = Vec::new();
    input.serialize(&mut writer).unwrap();

    assert_eq!(writer, vec![0x05, 0x01, 0x02, 0x03, 0x04, 0x05]);

    let mut reader = Reader::new(writer);
    let deserialized = Vec::<u8>::deserialize(&mut reader).unwrap();
    assert_eq!(deserialized, input);
}
