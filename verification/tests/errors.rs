use hematite::protocol::data_types::proto_string::{
    ProtoString, DESERIALIZE_LENGTH_CONTEXT, UTF16_LENGTH_CONTEXT,
};
use hematite::protocol::data_types::uuid::Uuid;
use hematite::protocol::data_types::var_int::{VarInt, VARINT_TOO_LARGE};
use hematite::protocol::ser_de::de::{self, Deserialize, IoError};
use hematite::protocol::ser_de::reader::Reader;
use hematite::protocol::ser_de::ser::{self, Serialize};

#[test]
fn short_numbers_report_too_few_bytes() {
    let mut reader = Reader::new(vec![0x01]);
    assert_eq!(
        u16::deserialize(&mut reader),
        Err(de::Error::TooFewBytes {
            expected: 1,
            actual: 0
        })
    );
}

#[test]
fn short_uuid_reports_unexpected_eof() {
    let mut reader = Reader::new(vec![0; 3]);
    assert_eq!(
        Uuid::deserialize(&mut reader),
        Err(de::Error::Io(IoError::UnexpectedEof))
    );
}

#[test]
fn long_varint_reports_message() {
    let mut reader = Reader::new(vec![0xff; 6]);
    assert_eq!(
        VarInt::deserialize(&mut reader),
        Err(de::Error::Message(VARINT_TOO_LARGE))
    );
}

#[test]
fn invalid_utf8_reports_from_utf8_error() {
    let mut reader = Reader::new(vec![2, 0xc3, 0x28]);
    assert_eq!(
        ProtoString::<10>::deserialize(&mut reader),
        Err(de::Error::FromUtf8Error)
    );
}

#[test]
fn long_string_length_reports_too_long() {
    let mut reader = Reader::new(vec![7, b'a', b'b', b'c', b'd', b'e', b'f', b'g']);
    assert_eq!(
        ProtoString::<2>::deserialize(&mut reader),
        Err(de::Error::TooLong {
            expected: 6,
            actual: 7,
            context: DESERIALIZE_LENGTH_CONTEXT
        })
    );
}

#[test]
fn writing_a_long_string_reports_too_long() {
    let mut writer = Vec::new();
    assert_eq!(
        ProtoString::<2>::new("abc".to_string()).serialize(&mut writer),
        Err(ser::Error::TooLong {
            expected: 2,
            actual: 3,
            context: UTF16_LENGTH_CONTEXT
        })
    );
}

#[test]
fn errors_consume_what_was_read() {
    let mut reader = Reader::new(vec![0x02, 0x09]);
    assert_eq!(bool::deserialize(&mut reader), Err(de::Error::Syntax));
    assert_eq!(reader.remaining(), vec![0x09]);

    let mut reader = Reader::new(vec![0xff, 0xff, 0xff, 0xff, 0xff, 0x01, 0x09]);
    assert!(VarInt::deserialize(&mut reader).is_err());
    assert_eq!(reader.remaining(), vec![0x01, 0x09]);

    let mut reader = Reader::new(vec![0xF0, 0x93, 0x09, b's', b'h', b'o', b'r', b't']);
    assert!(ProtoString::<32_767>::deserialize(&mut reader).is_err());
    assert_eq!(reader.remaining(), b"short".to_vec());

    let mut writer = vec![0x07];
    assert!(ProtoString::<1>::new("🦀".to_string()).serialize(&mut writer).is_err());
    assert_eq!(writer, vec![0x07]);
}
