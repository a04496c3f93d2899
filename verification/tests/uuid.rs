use hematite::protocol::data_types::uuid::Uuid;
use hematite::protocol::ser_de::de::Deserialize;
use hematite::protocol::ser_de::reader::Reader;
use hematite::protocol::ser_de::ser::Serialize;

fn from_outside(u: uuid::Uuid) -> Uuid {
    Uuid::from_bytes(*u.as_bytes())
}

#[test]
fn test_uuid_roundtrip() {
    let input = from_outside(uuid::Uuid::new_v4());
    let mut buffer = Vec::new();

    input.serialize(&mut buffer).unwrap();

    assert_eq!(buffer.len(), 16);
    assert_eq!(buffer.as_slice(), input.as_bytes());

    let mut reader = Reader::new(buffer);
    let output = Uuid::deserialize(&mut reader).unwrap();

    assert_eq!(input, output);
    assert_eq!(uuid::Uuid::from_bytes(*output.as_bytes()).get_version_num(), 4);
}

#[test]
fn test_uuid_known_value() {
    let input = Uuid::nil();
    let mut buffer = Vec::new();

    input.serialize(&mut buffer).unwrap();
    assert_eq!(buffer, vec![0u8; 16]);

    let mut reader = Reader::new(buffer);
    let output = Uuid::deserialize(&mut reader).unwrap();
    assert_eq!(output, Uuid::nil());
}

#[test]
fn test_uuid_string_parsing_roundtrip() {
    let text_repr = "6740b3c3-ee9b-4497-8d07-28564a275f10";
    let input = from_outside(uuid::Uuid::parse_str(text_repr).unwrap());

    let mut buffer = Vec::new();
    input.serialize(&mut buffer).unwrap();

    assert_eq!(buffer[0], 0x67);
    assert_eq!(buffer[1], 0x40);
    assert_eq!(buffer[15], 0x10);

    let mut reader = Reader::new(buffer);
    let output = Uuid::deserialize(&mut reader).unwrap();
    assert_eq!(output.to_hyphenated_string(), text_repr);
}

#[test]
fn test_uuid_deserialization_eof() {
    let broken_payload = vec![0u8; 10];
    let mut reader = Reader::new(broken_payload);

    let result = Uuid::deserialize(&mut reader);

    assert!(result.is_err());
}

#[test]
fn uuid_hyphenated_form_matches_outside_crate() {
    let raw = uuid::Uuid::new_v4();
    assert_eq!(from_outside(raw).to_hyphenated_string(), raw.to_string());
}

#[test]
fn hyphenated_text_parses_back() {
    let raw = uuid::Uuid::new_v4();
    let u = from_outside(raw);
    assert_eq!(Uuid::parse_str(&u.to_hyphenated_string()), Some(u));
    assert_eq!(Uuid::parse_str("not a uuid"), None);
}
