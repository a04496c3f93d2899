use hematite::common::position::Position;
use hematite::protocol::ser_de::de::Deserialize;
use hematite::protocol::ser_de::reader::Reader;
use hematite::protocol::ser_de::ser::Serialize;

#[test]
fn test_wiki_provided_example() {
    let pos = Position::new(18357644, 831, -20882616);
    let mut buffer = Vec::new();

    pos.serialize(&mut buffer).unwrap();

    assert_eq!(buffer.len(), 8);
    let expected = [
        0b01000110, 0b00000111, 0b01100011, 0b00101100, 0b00010101, 0b10110100, 0b10000011,
        0b00111111,
    ];

    assert_eq!(buffer, expected);

    let mut reader = Reader::new(buffer);
    let decoded = Position::deserialize(&mut reader).unwrap();

    assert_eq!(pos.x, decoded.x);
    assert_eq!(pos.y, decoded.y);
    assert_eq!(pos.z, decoded.z);
}

#[test]
fn test_zero_coordinates() {
    let pos = Position::new(0, 0, 0);
    let mut buffer = Vec::new();

    pos.serialize(&mut buffer).unwrap();

    assert_eq!(buffer, vec![0u8; 8]);

    let mut reader = Reader::new(buffer);
    let decoded = Position::deserialize(&mut reader).unwrap();
    assert_eq!(decoded, pos);
}

#[test]
fn test_negative_sign_extensions() {
    let pos = Position::new(-100, -5, -2500);
    let mut buffer = Vec::new();

    pos.serialize(&mut buffer).unwrap();

    let mut reader = Reader::new(buffer);
    let decoded = Position::deserialize(&mut reader).unwrap();

    assert_eq!(decoded.x, -100);
    assert_eq!(decoded.y, -5);
    assert_eq!(decoded.z, -2500);
}

#[test]
fn test_extreme_boundary_limits() {
    let max_pos = Position::new(33554431, 2047, 33554431);
    let min_pos = Position::new(-33554432, -2048, -33554432);

    let mut max_buf = Vec::new();
    max_pos.serialize(&mut max_buf).unwrap();
    let mut max_reader = Reader::new(max_buf);
    assert_eq!(Position::deserialize(&mut max_reader).unwrap(), max_pos);

    let mut min_buf = Vec::new();
    min_pos.serialize(&mut min_buf).unwrap();
    let mut min_reader = Reader::new(min_buf);
    assert_eq!(Position::deserialize(&mut min_reader).unwrap(), min_pos);
}

#[test]
fn test_position_deserialization_eof() {
    let broken_payload = vec![0u8; 5];
    let mut reader = Reader::new(broken_payload);

    let result = Position::deserialize(&mut reader);
    assert!(result.is_err());
}
