use vstd::prelude::*;
use vstd::utf8::encode_utf8;

use crate::protocol::data_types::game_profile::GameProfile;
use crate::protocol::data_types::proto_string::{string_length_error, ProtoString};
use crate::protocol::data_types::uuid::{new_v3_oid, uuid_v3_oid, Uuid};
use crate::protocol::packets::login::serverbound::LoginStart;

verus! {

/// The prefix of the name from which an offline player's UUID is derived.
pub const OFFLINE_PLAYER_PREFIX: &'static str = "OfflinePlayer:";

/// The UUID bytes of an offline player called `name`: the name-based UUID of
/// `OfflinePlayer:<name>` in the OID namespace.
pub open spec fn offline_uuid(name: Seq<char>) -> Seq<u8> {
    uuid_v3_oid(encode_utf8(OFFLINE_PLAYER_PREFIX@) + encode_utf8(name))
}

/// The profile of a player who logs in offline: the derived UUID, the name
/// from the login packet and no properties.
pub fn offline_profile(login_start: &LoginStart) -> (profile: GameProfile)
    ensures
        profile.uuid@ == offline_uuid(login_start.name@),
        profile.username@ == login_start.name@,
        profile.properties@.len() == 0,
{
    let mut name_bytes: Vec<u8> = Vec::new();
    let prefix: &str = OFFLINE_PLAYER_PREFIX;
    let prefix_bytes = prefix.as_bytes();
    assert(prefix_bytes@ == encode_utf8(OFFLINE_PLAYER_PREFIX@));
    name_bytes.extend_from_slice(prefix_bytes);
    let name = login_start.name.as_bytes();
    name_bytes.extend_from_slice(name);
    assert(name_bytes@ =~= encode_utf8(OFFLINE_PLAYER_PREFIX@) + encode_utf8(login_start.name@));
    let slice = name_bytes.as_slice();
    let uuid = Uuid::from_bytes(new_v3_oid(slice));
    GameProfile { uuid, username: login_start.name.clone(), properties: Vec::new() }
}

/// Whether a profile with the name `name` can be written in a login success
/// packet, whose name field holds at most sixteen UTF-16 code units.
pub open spec fn profile_name_writable(name: Seq<char>) -> bool {
    string_length_error(name, 16) is None
}

} // verus!
