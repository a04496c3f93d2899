use hematite::protocol::data_types::var_int::VarInt;
use hematite::protocol::ser_de::de::Deserialize;
use hematite::protocol::ser_de::reader::Reader;
use hematite::protocol::ser_de::ser::Serialize;

fn cases() -> Vec<(i32, Vec<u8>)> {
    vec![
        (0, vec![0x00]),
        (1, vec![0x01]),
        (2, vec![0x02]),
        (127, vec![0x7f]),
        (128, vec![0x80, 0x01]),
        (255, vec![0xff, 0x01]),
        (25565, vec![0xdd, 0xc7, 0x01]),
        (2097151, vec![0xff, 0xff, 0x7f]),
        (2147483647, vec![0xff, 0xff, 0xff, 0xff, 0x07]),
        (-1, vec![0xff, 0xff, 0xff, 0xff, 0x0f]),
        (-2147483648, vec![0x80, 0x80, 0x80, 0x80, 0x08]),
    ]
}

#[test]
fn test_varint_encode() {
    for (value, expected) in cases() {
        let mut writer = Vec::new();
        VarInt(value).serialize(&mut writer).unwrap();

        assert_eq!(writer, expected, "Failed for value {value}");
    }
}

#[test]
fn test_varint_decode() {
    for (expected, bytes) in cases() {
        let mut reader = Reader::new(bytes);

        assert_eq!(
            VarInt::deserialize(&mut reader).unwrap(),
            VarInt(expected),
            "Failed for value {expected}"
        );
    }
}

#[test]
fn varint_len_of_positive_values_matches_encoding() {
    for (value, bytes) in cases() {
        if value > 0 {
            assert_eq!(VarInt(value).len(), bytes.len(), "Failed for value {value}");
        }
    }
}

#[test]
fn varint_len_counts_magnitude_bits() {
    assert_eq!(VarInt(0).len(), 0);
    assert_eq!(VarInt(-1).len(), 1);
    assert_eq!(VarInt(-128).len(), 2);
    assert_eq!(VarInt(i32::MIN + 1).len(), 5);
}

#[test]
fn varint_six_bytes_are_rejected() {
    let mut reader = Reader::new(vec![0x80, 0x80, 0x80, 0x80, 0x80, 0x01]);
    assert!(VarInt::deserialize(&mut reader).is_err());
}
