use vstd::prelude::*;

use crate::plugins::networking::handshake::{handle_handshake, state_after_handshake};
use crate::plugins::networking::login::{offline_profile, offline_uuid, profile_name_writable};
use crate::protocol::data_types::game_profile::GameProfile;
use crate::protocol::data_types::uuid::hyphenated;
use crate::protocol::data_types::var_int::{lemma_varint_u32_roundtrip, varint_decode_u32, varint_encode_u32, VarInt};
use crate::protocol::packets::login::clientbound::LoginSuccess;
use crate::protocol::packets::routing::{
    EngineSBPackets, NetworkingCBPackets, NetworkingSBPackets, RoutedCBPacket, RoutedSBPacket, ServerState, LOGIN_FINISHED_ID,
};
use crate::protocol::ser_de::de::{self, Deserialize};
use crate::protocol::ser_de::model::Model;
use crate::protocol::ser_de::reader::Reader;
use crate::protocol::ser_de::ser::{self, Serialize};

verus! {

/// A packet as it travels: its id and the bytes of its body.
#[derive(Debug)]
pub struct RawPacket {
    pub id: u8,
    pub buffer: Vec<u8>,
}

/// The frame that carries a packet: its length (id byte included) as a
/// variable-length integer, the id byte, then the body.
pub open spec fn frame_bytes(id: u8, body: Seq<u8>) -> Seq<u8> {
    varint_encode_u32(frame_length(body.len()) as u32) + seq![id] + body
}

/// The length field of a frame whose body has `n` bytes: `n + 1` as a
/// 32-bit integer.
pub open spec fn frame_length(n: nat) -> i32 {
    if n < usize::MAX {
        (n + 1) as i32
    } else {
        0
    }
}

/// The packet read from the bytes that follow a frame's length: its id as a
/// variable-length integer (truncated to a byte) and the rest as its body.
pub open spec fn packet_from_frame(frame: Seq<u8>) -> Result<(u8, Seq<u8>), de::Error> {
    match varint_decode_u32(frame) {
        Ok((v, n)) => Ok((((v as i32) as u8), frame.skip(n as int))),
        Err(e) => Err(e),
    }
}

impl RawPacket {
    pub fn new(id: u8, buffer: Vec<u8>) -> (r: Self)
        ensures
            r.id == id,
            r.buffer@ == buffer@,
    {
        Self { id, buffer }
    }

    /// Reads a packet from the bytes of a frame that follow its length.
    pub fn from_frame(frame: Vec<u8>) -> (r: Result<Self, de::Error>)
        ensures
            match packet_from_frame(frame@) {
                Ok((id, body)) => r matches Ok(p) && p.id == id && p.buffer@ == body,
                Err(e) => r matches Err(e2) && e2 == e,
            },
    {
        let mut reader = Reader::new(frame);
        let id = match VarInt::deserialize(&mut reader) {
            Ok(v) => v.0 as u8,
            Err(e) => return Err(e),
        };
        let remaining = reader.read_to_end();
        Ok(RawPacket::new(id, remaining))
    }
}

impl Model for RawPacket {
    type Abstract = (u8, Seq<u8>);

    open spec fn model(&self) -> (u8, Seq<u8>) {
        (self.id, self.buffer@)
    }
}

impl Serialize for RawPacket {
    open spec fn spec_serialize(v: (u8, Seq<u8>)) -> Result<Seq<u8>, ser::Error> {
        Ok(frame_bytes(v.0, v.1))
    }

    fn serialize(&self, writer: &mut Vec<u8>) -> (r: Result<(), ser::Error>) {
        let len = self.buffer.len();
        let length: i32 = if len < usize::MAX {
            (len + 1) as i32
        } else {
            0
        };
        let _ = VarInt(length).serialize(writer);
        let _ = self.id.serialize(writer);
        writer.extend_from_slice(self.buffer.as_slice());
        assert(writer@ =~= old(writer)@ + frame_bytes(self.id, self.buffer@));
        Ok(())
    }
}

/// The frame length and the packet read from the frame give back the id and
/// body that were written, for ids below 128 (which take one byte both as a
/// byte and as a variable-length integer) and bodies whose length fits.
pub proof fn lemma_frame_roundtrip(id: u8, body: Seq<u8>, rest: Seq<u8>)
    requires
        id < 0x80,
        body.len() + 1 <= i32::MAX,
    ensures
        ({
            let prefix = varint_encode_u32(frame_length(body.len()) as u32);
            let frame = frame_bytes(id, body) + rest;
            &&& varint_decode_u32(frame) == Ok::<(u32, nat), de::Error>((((body.len() + 1) as i32) as u32, prefix.len()))
            &&& packet_from_frame(frame.skip(prefix.len() as int).take(body.len() + 1int)) == Ok::<(u8, Seq<u8>), de::Error>((id, body))
        }),
{
    let l = frame_length(body.len());
    let prefix = varint_encode_u32(l as u32);
    let frame = frame_bytes(id, body) + rest;
    lemma_varint_u32_roundtrip(l as u32, seq![id] + body + rest);
    assert(prefix + (seq![id] + body + rest) =~= frame);
    let inner = frame.skip(prefix.len() as int).take(body.len() + 1int);
    assert(inner =~= seq![id] + body);
    assert(varint_encode_u32(id as u32) == seq![id]) by {
        assert((id as u32) < 0x80);
        assert(((id as u32) as u8) == id);
    }
    lemma_varint_u32_roundtrip(id as u32, body);
    assert(seq![id] + body == varint_encode_u32(id as u32) + body);
    let u = id as u32;
    assert(((u as i32) as u8) == id) by (bit_vector)
        requires
            u == id as u32;
    assert((seq![id] + body).skip(1) =~= body);
}

/// Serializes a clientbound packet's body and pairs it with the packet's id.
pub fn into_raw_packet(packet: RoutedCBPacket) -> (r: RawPacket)
    requires
        packet.spec_body() is Ok,
    ensures
        r.id == packet.spec_id(),
        r.buffer@ == packet.spec_body()->Ok_0,
{
    let mut writer: Vec<u8> = Vec::new();
    let _ = packet.serialize(&mut writer);
    assert(writer@ =~= packet.spec_body()->Ok_0);
    RawPacket::new(packet.get_id(), writer)
}

/// The login success packet for `profile`.
pub open spec fn login_success_frame(uuid: Seq<u8>, name: Seq<char>) -> Seq<u8> {
    GameProfile::spec_serialize((uuid, (name, Seq::empty())))->Ok_0
}

/// Handles a login start: derives the offline profile and builds the login
/// success packet that announces it.
pub fn handle_login_start(login_start: &crate::protocol::packets::login::serverbound::LoginStart) -> (r: (GameProfile, RawPacket))
    requires
        profile_name_writable(login_start.name@),
    ensures
        r.0.uuid@ == offline_uuid(login_start.name@),
        r.0.username@ == login_start.name@,
        r.0.properties@.len() == 0,
        r.1.id == LOGIN_FINISHED_ID,
        r.1.buffer@ == login_success_frame(r.0.uuid@, login_start.name@),
{
    let announced = offline_profile(login_start);
    let profile = offline_profile(login_start);
    assert(announced.model() == (profile.uuid@, (login_start.name@, Seq::<<crate::protocol::data_types::game_profile::GameProfileProperties as Model>::Abstract>::empty())));
    let packet = into_raw_packet(RoutedCBPacket::Networking(NetworkingCBPackets::LoginSuccess(LoginSuccess { profile: announced })));
    (profile, packet)
}

/// What handling a packet asks the connection's owner to do.
#[derive(Debug)]
pub enum ConnectionAction {
    /// Nothing beyond the state change already made.
    Continue,
    /// Send this packet to the client.
    Send(RawPacket),
    /// The client has joined; the text describes its profile.
    ClientJoined(String),
    /// Hand this packet to the engine.
    ForwardToEngine(EngineSBPackets),
}

/// The per-connection state of the networking layer.
pub struct Connection {
    pub server_state: ServerState,
    pub player_profile: Option<GameProfile>,
}

impl Connection {
    /// A connection that has not shaken hands yet.
    pub fn new() -> (c: Self)
        ensures
            c.server_state == ServerState::Handshake,
            c.player_profile is None,
    {
        Connection { server_state: ServerState::Handshake, player_profile: None }
    }

    /// Whether handling `packet` completes: plugin and cookie responses are
    /// not handled yet, a login start needs a name that fits the login
    /// success packet, and a login acknowledgement needs a profile.
    pub open spec fn spec_handles(self, packet: RoutedSBPacket) -> bool {
        match packet {
            RoutedSBPacket::Networking(NetworkingSBPackets::LoginStart(ls)) => profile_name_writable(ls.name@),
            RoutedSBPacket::Networking(NetworkingSBPackets::LoginPluginResponse(_)) => false,
            RoutedSBPacket::Networking(NetworkingSBPackets::LoginAcknowledged(_)) => self.player_profile is Some,
            RoutedSBPacket::Networking(NetworkingSBPackets::CookieResponse(_)) => false,
            _ => true,
        }
    }

    /// Decides [`Connection::spec_handles`].
    pub fn handles(&self, packet: &RoutedSBPacket) -> (b: bool)
        ensures
            b == self.spec_handles(*packet),
    {
        match packet {
            RoutedSBPacket::Networking(NetworkingSBPackets::LoginStart(ls)) => {
                let n = ls.name.utf16_len();
                let bytes = ls.name.as_bytes();
                n <= 16 && bytes.len() <= 48
            },
            RoutedSBPacket::Networking(NetworkingSBPackets::LoginPluginResponse(_)) => false,
            RoutedSBPacket::Networking(NetworkingSBPackets::LoginAcknowledged(_)) => self.player_profile.is_some(),
            RoutedSBPacket::Networking(NetworkingSBPackets::CookieResponse(_)) => false,
            _ => true,
        }
    }

    /// Handles one packet from the client: a handshake moves to the state it
    /// names; a login start records the offline profile and answers with a
    /// login success; a login acknowledgement moves to configuration and
    /// reports the joined client; engine packets are forwarded.
    /// Whether handling `packet` in `before` leaves `after` and asks for
    /// `action`: a handshake moves to the state it names; a login start
    /// records the offline profile and answers with a login success; a login
    /// acknowledgement moves to configuration and reports the joined client;
    /// engine packets are forwarded.
    pub open spec fn handles_to(before: Connection, packet: RoutedSBPacket, after: Connection, action: ConnectionAction) -> bool {
        match packet {
            RoutedSBPacket::Networking(NetworkingSBPackets::Handshake(h)) => {
                &&& after.server_state == state_after_handshake(h.intent)
                &&& after.player_profile == before.player_profile
                &&& action is Continue
            },
            RoutedSBPacket::Networking(NetworkingSBPackets::LoginStart(ls)) => {
                &&& after.server_state == before.server_state
                &&& after.player_profile matches Some(p) && p.uuid@ == offline_uuid(ls.name@)
                    && p.username@ == ls.name@ && p.properties@.len() == 0
                &&& action matches ConnectionAction::Send(raw) && raw.id == LOGIN_FINISHED_ID
                    && raw.buffer@ == login_success_frame(offline_uuid(ls.name@), ls.name@)
            },
            RoutedSBPacket::Networking(NetworkingSBPackets::LoginAcknowledged(_)) => {
                &&& after.server_state == ServerState::Configuration
                &&& after.player_profile == before.player_profile
                &&& action matches ConnectionAction::ClientJoined(text) && text@
                    == before.player_profile->0.username@ + " with UUID "@ + hyphenated(before.player_profile->0.uuid@)
            },
            RoutedSBPacket::Engine(p) => {
                &&& after.server_state == before.server_state
                &&& after.player_profile == before.player_profile
                &&& action == ConnectionAction::ForwardToEngine(p)
            },
            _ => false,
        }
    }

    pub fn handle_packet(&mut self, packet: RoutedSBPacket) -> (action: ConnectionAction)
        requires
            old(self).spec_handles(packet),
        ensures
            Self::handles_to(*old(self), packet, *final(self), action),
    {
        match packet {
            RoutedSBPacket::Networking(NetworkingSBPackets::Handshake(handshake)) => {
                handle_handshake(handshake, &mut self.server_state);
                ConnectionAction::Continue
            },
            RoutedSBPacket::Networking(NetworkingSBPackets::LoginStart(login_start)) => {
                let (profile, raw) = handle_login_start(&login_start);
                self.player_profile = Some(profile);
                ConnectionAction::Send(raw)
            },
            RoutedSBPacket::Networking(NetworkingSBPackets::LoginAcknowledged(_)) => {
                let text = match &self.player_profile {
                    Some(profile) => profile.describe(),
                    None => String::new(),
                };
                self.server_state = ServerState::Configuration;
                ConnectionAction::ClientJoined(text)
            },
            RoutedSBPacket::Engine(p) => ConnectionAction::ForwardToEngine(p),
            RoutedSBPacket::Networking(NetworkingSBPackets::LoginPluginResponse(_)) => ConnectionAction::Continue,
            RoutedSBPacket::Networking(NetworkingSBPackets::CookieResponse(_)) => ConnectionAction::Continue,
        }
    }
}

/// Whether `cs` is the run of a connection's states over the packets
/// `packets`, each handled with the action `actions[i]`.
pub open spec fn connection_run(cs: Seq<Connection>, packets: Seq<RoutedSBPacket>, actions: Seq<ConnectionAction>) -> bool {
    &&& cs.len() == packets.len() + 1
    &&& actions.len() == packets.len()
    &&& forall|i: int| 0 <= i < packets.len() ==> Connection::handles_to(cs[i], #[trigger] packets[i], cs[i + 1], actions[i])
}

/// Over any run of packets, the connection's state changes only on a
/// handshake, to the state its intent names, and on a login
/// acknowledgement, to configuration; and every engine packet is handed on,
/// as itself, at its place in the run.
pub proof fn lemma_connection_run(cs: Seq<Connection>, packets: Seq<RoutedSBPacket>, actions: Seq<ConnectionAction>)
    requires
        connection_run(cs, packets, actions),
    ensures
        forall|i: int|
            0 <= i < packets.len() ==> match #[trigger] packets[i] {
                RoutedSBPacket::Networking(NetworkingSBPackets::Handshake(h)) => cs[i + 1].server_state
                    == state_after_handshake(h.intent),
                RoutedSBPacket::Networking(NetworkingSBPackets::LoginAcknowledged(_)) => cs[i + 1].server_state
                    == ServerState::Configuration,
                RoutedSBPacket::Engine(p) => cs[i + 1].server_state == cs[i].server_state && actions[i]
                    == ConnectionAction::ForwardToEngine(p),
                _ => cs[i + 1].server_state == cs[i].server_state,
            },
{
    assert forall|i: int| 0 <= i < packets.len() implies match #[trigger] packets[i] {
        RoutedSBPacket::Networking(NetworkingSBPackets::Handshake(h)) => cs[i + 1].server_state
            == state_after_handshake(h.intent),
        RoutedSBPacket::Networking(NetworkingSBPackets::LoginAcknowledged(_)) => cs[i + 1].server_state
            == ServerState::Configuration,
        RoutedSBPacket::Engine(p) => cs[i + 1].server_state == cs[i].server_state && actions[i]
            == ConnectionAction::ForwardToEngine(p),
        _ => cs[i + 1].server_state == cs[i].server_state,
    } by {
        assert(Connection::handles_to(cs[i], packets[i], cs[i + 1], actions[i]));
    }
}

} // verus!
