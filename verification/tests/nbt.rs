use hematite::common::asset_types::ResourceLocation;
use hematite::common::nbt::{FromNbtTag, IntoNbtTag, NbtTag};
use hematite::protocol::data_types::uuid::Uuid;

#[test]
fn test_uuid_works() {
    let uuid = Uuid::from_bytes(
        *uuid::Uuid::parse_str("0b752614-d3a1-4eef-9d8a-00292f9ecdc5")
            .unwrap()
            .as_bytes(),
    );

    let as_u128 = 0b00001011011101010010011000010100110100111010000101001110111011111001110110001010000000000010100100101111100111101100110111000101_u128;
    assert_eq!(u128::from_be_bytes(*uuid.as_bytes()), as_u128);

    let int_array = || {
        NbtTag::IntArray(vec![
            0b00001011011101010010011000010100_u32 as i32,
            0b11010011101000010100111011101111_u32 as i32,
            0b10011101100010100000000000101001_u32 as i32,
            0b00101111100111101100110111000101_u32 as i32,
        ])
    };
    assert_eq!(uuid.into_nbt_tag(), int_array());

    assert_eq!(Uuid::from_nbt_tag(int_array()), Some(uuid));

    let string_tag = NbtTag::String("0b752614-d3a1-4eef-9d8a-00292f9ecdc5".to_string());
    assert_eq!(Uuid::from_nbt_tag(string_tag), Some(uuid));
}

#[test]
fn uuid_from_wrong_tags_is_none() {
    assert_eq!(Uuid::from_nbt_tag(NbtTag::IntArray(vec![1, 2, 3])), None);
    assert_eq!(Uuid::from_nbt_tag(NbtTag::String("not a uuid".to_string())), None);
    assert_eq!(Uuid::from_nbt_tag(NbtTag::Int(4)), None);
}

#[test]
fn string_tags_roundtrip() {
    let tag = String::from("hello").into_nbt_tag();
    assert_eq!(tag, NbtTag::String("hello".to_string()));
    assert_eq!(String::from_nbt_tag(tag), Some("hello".to_string()));
    assert_eq!("static".into_nbt_tag(), NbtTag::String("static".to_string()));
    assert_eq!(String::from_nbt_tag(NbtTag::Byte(1)), None);
}

#[test]
fn bool_tags_are_bytes() {
    assert_eq!(true.into_nbt_tag(), NbtTag::Byte(1));
    assert_eq!(false.into_nbt_tag(), NbtTag::Byte(0));
    assert_eq!(bool::from_nbt_tag(NbtTag::Byte(1)), Some(true));
    assert_eq!(bool::from_nbt_tag(NbtTag::Byte(0)), Some(false));
    assert_eq!(bool::from_nbt_tag(NbtTag::Byte(2)), None);
    assert_eq!(bool::from_nbt_tag(NbtTag::Int(1)), None);
}

#[test]
fn byte_and_int_tags() {
    assert_eq!(200u8.into_nbt_tag(), NbtTag::Byte(-56));
    assert_eq!(u8::from_nbt_tag(NbtTag::Byte(-56)), Some(200));
    assert_eq!(u8::from_nbt_tag(NbtTag::Int(3)), None);
    assert_eq!((-7i32).into_nbt_tag(), NbtTag::Int(-7));
    assert_eq!(i32::from_nbt_tag(NbtTag::Int(-7)), Some(-7));
    assert_eq!(i32::from_nbt_tag(NbtTag::Long(-7)), None);
}

#[test]
fn list_tags_roundtrip_and_reject_bad_items() {
    let tag = vec![1i32, 2, 3].into_nbt_tag();
    assert_eq!(
        tag,
        NbtTag::List(vec![NbtTag::Int(1), NbtTag::Int(2), NbtTag::Int(3)])
    );
    assert_eq!(Vec::<i32>::from_nbt_tag(tag), Some(vec![1, 2, 3]));
    assert_eq!(
        Vec::<i32>::from_nbt_tag(NbtTag::List(vec![NbtTag::Int(1), NbtTag::Byte(2)])),
        None
    );
    assert_eq!(Vec::<i32>::from_nbt_tag(NbtTag::IntArray(vec![1])), None);
    assert_eq!(Vec::<i32>::from_nbt_tag(NbtTag::List(vec![])), Some(vec![]));
}

#[test]
fn resource_location_tags() {
    let location = ResourceLocation::new("minecraft".to_string(), "stone".to_string());
    let tag = location.clone().into_nbt_tag();
    assert_eq!(tag, NbtTag::String("minecraft:stone".to_string()));
    assert_eq!(ResourceLocation::from_nbt_tag(tag), Some(location));
    assert_eq!(
        ResourceLocation::from_nbt_tag(NbtTag::String("Minecraft:stone".to_string())),
        None
    );
    assert_eq!(
        ResourceLocation::from_nbt_tag(NbtTag::String("nocolon".to_string())),
        None
    );
}
