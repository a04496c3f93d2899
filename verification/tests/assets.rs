use hematite::common::asset_types::{is_correct_format, ResourceLocation};
use hematite::protocol::data_types::game_profile::GameProfile;
use hematite::protocol::data_types::proto_string::ProtoString;
use hematite::protocol::data_types::uuid::Uuid;

#[test]
fn resource_location_text_roundtrips() {
    let location = ResourceLocation::new("minecraft".to_string(), "dirt_block".to_string());
    assert_eq!(location.as_string(), "minecraft:dirt_block");
    let back = ResourceLocation::try_from("minecraft:dirt_block".to_string()).unwrap();
    assert_eq!(back, location);
}

#[test]
fn resource_location_rejects_bad_text() {
    assert!(ResourceLocation::try_from("no_colon".to_string()).is_err());
    assert!(ResourceLocation::try_from("Upper:case".to_string()).is_err());
    assert!(ResourceLocation::try_from("a:b:c".to_string()).is_err());
    assert!(ResourceLocation::try_from("a:b2".to_string()).is_err());
}

#[test]
fn correct_format_allows_lowercase_and_underscore() {
    assert!(is_correct_format("snake_case"));
    assert!(is_correct_format(""));
    assert!(!is_correct_format("Snake"));
    assert!(!is_correct_format("x1"));
}

#[test]
fn game_profile_describes_name_and_uuid() {
    let raw = uuid::Uuid::parse_str("0b752614-d3a1-4eef-9d8a-00292f9ecdc5").unwrap();
    let profile = GameProfile::new(
        Uuid::from_bytes(*raw.as_bytes()),
        ProtoString::<16>::new("Alex".to_string()),
        Vec::new(),
    );
    assert_eq!(
        profile.describe(),
        "Alex with UUID 0b752614-d3a1-4eef-9d8a-00292f9ecdc5"
    );
}
