use hematite::protocol::data_types::var_long::VarLong;
use hematite::protocol::ser_de::de::Deserialize;
use hematite::protocol::ser_de::reader::Reader;
use hematite::protocol::ser_de::ser::Serialize;

fn cases() -> Vec<(i64, Vec<u8>)> {
    vec![
        (0, vec![0x00]),
        (1, vec![0x01]),
        (2, vec![0x02]),
        (127, vec![0x7f]),
        (128, vec![0x80, 0x01]),
        (255, vec![0xff, 0x01]),
        (2147483647, vec![0xff, 0xff, 0xff, 0xff, 0x07]),
        (
            9223372036854775807,
            vec![0xff, 0xff, 0xff, 0xff, 0xff, 0xff, 0xff, 0xff, 0x7f],
        ),
        (
            -1,
            vec![0xff, 0xff, 0xff, 0xff, 0xff, 0xff, 0xff, 0xff, 0xff, 0x01],
        ),
        (
            -2147483648,
            vec![0x80, 0x80, 0x80, 0x80, 0xf8, 0xff, 0xff, 0xff, 0xff, 0x01],
        ),
        (
            -9223372036854775808,
            vec![0x80, 0x80, 0x80, 0x80, 0x80, 0x80, 0x80, 0x80, 0x80, 0x01],
        ),
    ]
}

#[test]
fn test_varlong_encode() {
    for (value, expected) in cases() {
        let mut writer = Vec::new();
        VarLong(value).serialize(&mut writer).unwrap();

        assert_eq!(writer, expected, "Failed for value {value}");
    }
}

#[test]
fn test_varlong_decode() {
    for (expected, bytes) in cases() {
        let mut reader = Reader::new(bytes);

        assert_eq!(
            VarLong::deserialize(&mut reader).unwrap(),
            VarLong(expected),
            "Failed for value {expected}"
        );
    }
}

#[test]
fn varlong_eleven_continuation_bytes_are_rejected() {
    let mut reader = Reader::new(vec![0x80; 11]);
    assert!(VarLong::deserialize(&mut reader).is_err());
}

#[test]
fn varlong_truncated_input_is_rejected() {
    let mut reader = Reader::new(vec![0x80, 0x80]);
    assert!(VarLong::deserialize(&mut reader).is_err());
}
