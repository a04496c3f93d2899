use hematite::protocol::data_types::proto_string::ProtoString;
use hematite::protocol::data_types::var_int::VarInt;
use hematite::protocol::ser_de::de::Deserialize;
use hematite::protocol::ser_de::reader::Reader;
use hematite::protocol::ser_de::ser::Serialize;

#[test]
fn test_roundtrip_basic_ascii() {
    let input = ProtoString::<10>::new("Hello!".to_string());
    let mut buffer = Vec::new();

    input.serialize(&mut buffer).unwrap();

    assert_eq!(buffer[0], 6);
    assert_eq!(&buffer[1..], input.as_bytes());

    let mut reader = Reader::new(buffer);
    let output = ProtoString::deserialize(&mut reader).unwrap();

    assert_eq!(input, output);
}

#[test]
fn test_utf16_surrogate_counting() {
    let input = ProtoString::<1>::new("🦀".to_string());
    let mut buffer = Vec::new();
    let result = input.serialize(&mut buffer);

    assert!(result.is_err());

    let input = ProtoString::<2>::new("🦀".to_string());
    let mut buffer = Vec::new();
    input.serialize(&mut buffer).unwrap();

    assert_eq!(buffer[0], 4);

    let mut reader = Reader::new(buffer);
    let output = ProtoString::deserialize(&mut reader).unwrap();
    assert_eq!(input, output);
}

#[test]
fn test_byte_limit_expansion() {
    let input = ProtoString::<1>::new("अ".to_string());
    let mut buffer = Vec::new();
    input.serialize(&mut buffer).unwrap();
    assert_eq!(buffer[0], 3);

    let mut reader = Reader::new(buffer);
    let output = ProtoString::deserialize(&mut reader).unwrap();
    assert_eq!(input, output);
}

#[test]
fn test_deserialization_early_abort_protection() {
    let mut malicious_payload = Vec::new();
    VarInt(150_000).serialize(&mut malicious_payload).unwrap();
    malicious_payload.extend_from_slice(b"short");

    let mut reader = Reader::new(malicious_payload);
    let result = ProtoString::<32_767>::deserialize(&mut reader);

    assert!(result.is_err());
}

#[test]
fn test_invalid_utf8_payload() {
    let mut buffer = Vec::new();
    VarInt(4).serialize(&mut buffer).unwrap();
    buffer.extend_from_slice(&[0, 159, 146, 150]);

    let mut reader = Reader::new(buffer);
    let result = ProtoString::<32_767>::deserialize(&mut reader);

    assert!(result.is_err());
}

#[test]
fn test_malformed_varint() {
    let infinite_varint = vec![0x80, 0x80, 0x80, 0x80, 0x80, 0x80];
    let mut reader = Reader::new(infinite_varint);

    let result = ProtoString::<32_767>::deserialize(&mut reader);
    assert!(result.is_err());
}

#[test]
fn proto_string_counts_utf16_units() {
    assert_eq!(ProtoString::<4>::new("a🦀".to_string()).utf16_len(), 3);
    assert_eq!(ProtoString::<4>::new("é".to_string()).into_inner(), "é");
}
