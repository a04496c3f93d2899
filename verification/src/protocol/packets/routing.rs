use vstd::prelude::*;

use crate::protocol::packets::handshake::serverbound::Handshake;
use crate::protocol::packets::login::clientbound::{CookieRequest, LoginDisconnect, LoginPluginRequest, LoginSuccess};
use crate::protocol::packets::login::serverbound::{CookieResponse, LoginAcknowledged, LoginPluginResponse, LoginStart};
use crate::protocol::packets::status::clientbound::{PongResponse, StatusResponse};
use crate::protocol::packets::status::serverbound::{PingRequest, StatusRequest};
use crate::protocol::ser_de::de::{self, Deserialize};
use crate::protocol::ser_de::model::Model;
use crate::protocol::data_types::identifier::Identifier;
use crate::protocol::data_types::prefixed_array::accepts_seq;
use crate::protocol::data_types::var_int::{varint_decode_u32, VarInt};
use crate::protocol::ser_de::reader::Reader;
use crate::protocol::ser_de::ser::{self, ser_post, Serialize};

verus! {

/// The packet list of the server: the packets of each connection state by
/// direction, the states the networking layer handles, and the report names
/// that differ from the snake case form of the type name.
pub const PACKET_LIST: &'static str = "
    Handshake (networking):
        SB {
            Handshake = \"intention\",
        };

    Status:
        SB {
            PingRequest,
            StatusRequest,
        }
        CB {
            PongResponse,
            StatusResponse,
        };

    Configuration:
        SB {}
        CB {};

    Login (networking):
        SB {
            LoginStart = \"hello\",
            LoginPluginResponse = \"custom_query_answer\",
            LoginAcknowledged,
            CookieResponse,
        }
        CB {
            LoginDisconnect,
            LoginSuccess = \"login_finished\",
            LoginPluginRequest = \"custom_query\",
            CookieRequest,
        };

    Play:
        SB {}
        CB {};
";

// Protocol ids of the packets, as the game's packet report lists them for
// each state and direction.
pub const INTENTION_ID: u8 = 0x00;

pub const STATUS_REQUEST_ID: u8 = 0x00;

pub const PING_REQUEST_ID: u8 = 0x01;

pub const STATUS_RESPONSE_ID: u8 = 0x00;

pub const PONG_RESPONSE_ID: u8 = 0x01;

pub const HELLO_ID: u8 = 0x00;

pub const CUSTOM_QUERY_ANSWER_ID: u8 = 0x02;

pub const LOGIN_ACKNOWLEDGED_ID: u8 = 0x03;

pub const COOKIE_RESPONSE_ID: u8 = 0x04;

pub const LOGIN_DISCONNECT_ID: u8 = 0x00;

pub const LOGIN_FINISHED_ID: u8 = 0x02;

pub const CUSTOM_QUERY_ID: u8 = 0x04;

pub const COOKIE_REQUEST_ID: u8 = 0x05;

/// The state of a connection, which decides how packet ids are read.
#[derive(Debug, Clone, Copy, PartialEq, Eq)]
pub enum ServerState {
    Handshake,
    Status,
    Login,
    Configuration,
    Play,
}

/// Serverbound packets that the networking layer handles itself.
#[derive(Debug)]
pub enum NetworkingSBPackets {
    Handshake(Handshake),
    LoginStart(LoginStart),
    LoginPluginResponse(LoginPluginResponse),
    LoginAcknowledged(LoginAcknowledged),
    CookieResponse(CookieResponse),
}

/// Serverbound packets that are handed to the engine.
#[derive(Debug)]
pub enum EngineSBPackets {
    PingRequest(PingRequest),
    StatusRequest(StatusRequest),
}

/// A serverbound packet with the layer that handles it.
#[derive(Debug)]
pub enum RoutedSBPacket {
    Networking(NetworkingSBPackets),
    Engine(EngineSBPackets),
}

/// Clientbound packets that the networking layer sends.
#[derive(Debug)]
pub enum NetworkingCBPackets {
    LoginDisconnect(LoginDisconnect),
    LoginSuccess(LoginSuccess),
    LoginPluginRequest(LoginPluginRequest),
    CookieRequest(CookieRequest),
}

/// Clientbound packets that the engine sends.
#[derive(Debug)]
pub enum EngineCBPackets {
    PongResponse(PongResponse),
    StatusResponse(StatusResponse),
}

/// A clientbound packet with the layer that sent it.
#[derive(Debug)]
pub enum RoutedCBPacket {
    Networking(NetworkingCBPackets),
    Engine(EngineCBPackets),
}

/// The kinds of serverbound packets.
#[derive(Debug, Clone, Copy, PartialEq, Eq, Structural)]
pub enum SBKind {
    Handshake,
    PingRequest,
    StatusRequest,
    LoginStart,
    LoginPluginResponse,
    LoginAcknowledged,
    CookieResponse,
}

/// The kind of serverbound packet that id `id` names in state `state`.
pub open spec fn sb_route(id: u8, state: ServerState) -> Option<SBKind> {
    match state {
        ServerState::Handshake => if id == INTENTION_ID {
            Some(SBKind::Handshake)
        } else {
            None
        },
        ServerState::Status => if id == PING_REQUEST_ID {
            Some(SBKind::PingRequest)
        } else if id == STATUS_REQUEST_ID {
            Some(SBKind::StatusRequest)
        } else {
            None
        },
        ServerState::Login => if id == HELLO_ID {
            Some(SBKind::LoginStart)
        } else if id == CUSTOM_QUERY_ANSWER_ID {
            Some(SBKind::LoginPluginResponse)
        } else if id == LOGIN_ACKNOWLEDGED_ID {
            Some(SBKind::LoginAcknowledged)
        } else if id == COOKIE_RESPONSE_ID {
            Some(SBKind::CookieResponse)
        } else {
            None
        },
        ServerState::Configuration => None,
        ServerState::Play => None,
    }
}

/// Reading the packet that id `id` names in state `state` does not panic.
pub open spec fn sb_accepts(id: u8, state: ServerState, input: Seq<u8>) -> bool {
    match sb_route(id, state) {
        Some(SBKind::LoginPluginResponse) => LoginPluginResponse::spec_accepts(input),
        Some(SBKind::CookieResponse) => CookieResponse::spec_accepts(input),
        _ => true,
    }
}

/// What reading a routed packet promises: the specified outcome `spec` for
/// the packet type, with the packet wrapped as `picked` names it.
pub open spec fn routed_post<T: Model>(
    spec: Result<(T::Abstract, nat), de::Error>,
    before: Seq<u8>,
    r: Result<RoutedSBPacket, de::Error>,
    picked: Option<T>,
    after: Seq<u8>,
) -> bool {
    match spec {
        Ok((v, n)) => {
            &&& r is Ok
            &&& picked matches Some(x) && x.model() == v
            &&& n <= before.len()
            &&& after == before.skip(n as int)
        },
        Err(e) => r == Err::<RoutedSBPacket, de::Error>(e) && after.is_suffix_of(before),
    }
}

pub open spec fn picked_handshake(r: Result<RoutedSBPacket, de::Error>) -> Option<Handshake> {
    match r {
        Ok(RoutedSBPacket::Networking(NetworkingSBPackets::Handshake(p))) => Some(p),
        _ => None,
    }
}

pub open spec fn picked_ping_request(r: Result<RoutedSBPacket, de::Error>) -> Option<PingRequest> {
    match r {
        Ok(RoutedSBPacket::Engine(EngineSBPackets::PingRequest(p))) => Some(p),
        _ => None,
    }
}

pub open spec fn picked_status_request(r: Result<RoutedSBPacket, de::Error>) -> Option<StatusRequest> {
    match r {
        Ok(RoutedSBPacket::Engine(EngineSBPackets::StatusRequest(p))) => Some(p),
        _ => None,
    }
}

pub open spec fn picked_login_start(r: Result<RoutedSBPacket, de::Error>) -> Option<LoginStart> {
    match r {
        Ok(RoutedSBPacket::Networking(NetworkingSBPackets::LoginStart(p))) => Some(p),
        _ => None,
    }
}

pub open spec fn picked_login_plugin_response(r: Result<RoutedSBPacket, de::Error>) -> Option<LoginPluginResponse> {
    match r {
        Ok(RoutedSBPacket::Networking(NetworkingSBPackets::LoginPluginResponse(p))) => Some(p),
        _ => None,
    }
}

pub open spec fn picked_login_acknowledged(r: Result<RoutedSBPacket, de::Error>) -> Option<LoginAcknowledged> {
    match r {
        Ok(RoutedSBPacket::Networking(NetworkingSBPackets::LoginAcknowledged(p))) => Some(p),
        _ => None,
    }
}

pub open spec fn picked_cookie_response(r: Result<RoutedSBPacket, de::Error>) -> Option<CookieResponse> {
    match r {
        Ok(RoutedSBPacket::Networking(NetworkingSBPackets::CookieResponse(p))) => Some(p),
        _ => None,
    }
}

/// What `from_id` promises for the packet kind `kind`.
pub open spec fn from_id_post(kind: SBKind, before: Seq<u8>, r: Result<RoutedSBPacket, de::Error>, after: Seq<u8>) -> bool {
    match kind {
        SBKind::Handshake => routed_post(Handshake::spec_deserialize(before), before, r, picked_handshake(r), after),
        SBKind::PingRequest => routed_post(PingRequest::spec_deserialize(before), before, r, picked_ping_request(r), after),
        SBKind::StatusRequest => routed_post(StatusRequest::spec_deserialize(before), before, r, picked_status_request(r), after),
        SBKind::LoginStart => routed_post(LoginStart::spec_deserialize(before), before, r, picked_login_start(r), after),
        SBKind::LoginPluginResponse => routed_post(LoginPluginResponse::spec_deserialize(before), before, r, picked_login_plugin_response(r), after),
        SBKind::LoginAcknowledged => routed_post(LoginAcknowledged::spec_deserialize(before), before, r, picked_login_acknowledged(r), after),
        SBKind::CookieResponse => routed_post(CookieResponse::spec_deserialize(before), before, r, picked_cookie_response(r), after),
    }
}

impl RoutedSBPacket {
    /// Reads the packet that `id` names in `server_state`, or nothing when
    /// the id names no packet there.
    pub fn from_id(id: &u8, server_state: &ServerState, reader: &mut Reader) -> (r: Option<Result<Self, de::Error>>)
        requires
            sb_accepts(*id, *server_state, old(reader)@),
        ensures
            match sb_route(*id, *server_state) {
                None => r is None && final(reader)@ == old(reader)@,
                Some(kind) => r matches Some(res) && from_id_post(kind, old(reader)@, res, final(reader)@),
            },
    {
        let id = *id;
        match server_state {
            ServerState::Handshake => {
                if id == INTENTION_ID {
                    Some(
                        match Handshake::deserialize(reader) {
                            Ok(p) => Ok(RoutedSBPacket::Networking(NetworkingSBPackets::Handshake(p))),
                            Err(e) => Err(e),
                        },
                    )
                } else {
                    None
                }
            },
            ServerState::Status => {
                if id == PING_REQUEST_ID {
                    Some(
                        match PingRequest::deserialize(reader) {
                            Ok(p) => Ok(RoutedSBPacket::Engine(EngineSBPackets::PingRequest(p))),
                            Err(e) => Err(e),
                        },
                    )
                } else if id == STATUS_REQUEST_ID {
                    Some(
                        match StatusRequest::deserialize(reader) {
                            Ok(p) => Ok(RoutedSBPacket::Engine(EngineSBPackets::StatusRequest(p))),
                            Err(e) => Err(e),
                        },
                    )
                } else {
                    None
                }
            },
            ServerState::Login => {
                if id == HELLO_ID {
                    Some(
                        match LoginStart::deserialize(reader) {
                            Ok(p) => Ok(RoutedSBPacket::Networking(NetworkingSBPackets::LoginStart(p))),
                            Err(e) => Err(e),
                        },
                    )
                } else if id == CUSTOM_QUERY_ANSWER_ID {
                    Some(
                        match LoginPluginResponse::deserialize(reader) {
                            Ok(p) => Ok(RoutedSBPacket::Networking(NetworkingSBPackets::LoginPluginResponse(p))),
                            Err(e) => Err(e),
                        },
                    )
                } else if id == LOGIN_ACKNOWLEDGED_ID {
                    Some(
                        match LoginAcknowledged::deserialize(reader) {
                            Ok(p) => Ok(RoutedSBPacket::Networking(NetworkingSBPackets::LoginAcknowledged(p))),
                            Err(e) => Err(e),
                        },
                    )
                } else if id == COOKIE_RESPONSE_ID {
                    Some(
                        match CookieResponse::deserialize(reader) {
                            Ok(p) => Ok(RoutedSBPacket::Networking(NetworkingSBPackets::CookieResponse(p))),
                            Err(e) => Err(e),
                        },
                    )
                } else {
                    None
                }
            },
            ServerState::Configuration => None,
            ServerState::Play => None,
        }
    }
}

impl RoutedCBPacket {
    /// The protocol id of the packet.
    pub open spec fn spec_id(self) -> u8 {
        match self {
            RoutedCBPacket::Networking(NetworkingCBPackets::LoginDisconnect(_)) => LOGIN_DISCONNECT_ID,
            RoutedCBPacket::Networking(NetworkingCBPackets::LoginSuccess(_)) => LOGIN_FINISHED_ID,
            RoutedCBPacket::Networking(NetworkingCBPackets::LoginPluginRequest(_)) => CUSTOM_QUERY_ID,
            RoutedCBPacket::Networking(NetworkingCBPackets::CookieRequest(_)) => COOKIE_REQUEST_ID,
            RoutedCBPacket::Engine(EngineCBPackets::PongResponse(_)) => PONG_RESPONSE_ID,
            RoutedCBPacket::Engine(EngineCBPackets::StatusResponse(_)) => STATUS_RESPONSE_ID,
        }
    }

    /// The encoding of the packet's body, or the error reported for it.
    pub open spec fn spec_body(self) -> Result<Seq<u8>, ser::Error> {
        match self {
            RoutedCBPacket::Networking(NetworkingCBPackets::LoginDisconnect(p)) => LoginDisconnect::spec_serialize(p.model()),
            RoutedCBPacket::Networking(NetworkingCBPackets::LoginSuccess(p)) => LoginSuccess::spec_serialize(p.model()),
            RoutedCBPacket::Networking(NetworkingCBPackets::LoginPluginRequest(p)) => LoginPluginRequest::spec_serialize(p.model()),
            RoutedCBPacket::Networking(NetworkingCBPackets::CookieRequest(p)) => CookieRequest::spec_serialize(p.model()),
            RoutedCBPacket::Engine(EngineCBPackets::PongResponse(p)) => PongResponse::spec_serialize(p.model()),
            RoutedCBPacket::Engine(EngineCBPackets::StatusResponse(p)) => StatusResponse::spec_serialize(p.model()),
        }
    }

    pub fn get_id(&self) -> (id: u8)
        ensures
            id == self.spec_id(),
    {
        match self {
            RoutedCBPacket::Networking(NetworkingCBPackets::LoginDisconnect(_)) => LOGIN_DISCONNECT_ID,
            RoutedCBPacket::Networking(NetworkingCBPackets::LoginSuccess(_)) => LOGIN_FINISHED_ID,
            RoutedCBPacket::Networking(NetworkingCBPackets::LoginPluginRequest(_)) => CUSTOM_QUERY_ID,
            RoutedCBPacket::Networking(NetworkingCBPackets::CookieRequest(_)) => COOKIE_REQUEST_ID,
            RoutedCBPacket::Engine(EngineCBPackets::PongResponse(_)) => PONG_RESPONSE_ID,
            RoutedCBPacket::Engine(EngineCBPackets::StatusResponse(_)) => STATUS_RESPONSE_ID,
        }
    }

    /// Writes the packet's body (without id or length).
    pub fn serialize(&self, writer: &mut Vec<u8>) -> (r: Result<(), ser::Error>)
        ensures
            ser_post(self.spec_body(), old(writer)@, r, final(writer)@),
    {
        match self {
            RoutedCBPacket::Networking(NetworkingCBPackets::LoginDisconnect(p)) => p.serialize(writer),
            RoutedCBPacket::Networking(NetworkingCBPackets::LoginSuccess(p)) => p.serialize(writer),
            RoutedCBPacket::Networking(NetworkingCBPackets::LoginPluginRequest(p)) => p.serialize(writer),
            RoutedCBPacket::Networking(NetworkingCBPackets::CookieRequest(p)) => p.serialize(writer),
            RoutedCBPacket::Engine(EngineCBPackets::PongResponse(p)) => p.serialize(writer),
            RoutedCBPacket::Engine(EngineCBPackets::StatusResponse(p)) => p.serialize(writer),
        }
    }
}

/// Any run of bytes can be read byte by byte without a panic.
proof fn lemma_bytes_accepted(input: Seq<u8>, count: nat)
    ensures
        accepts_seq::<u8>(input, count),
    decreases count,
{
    if count > 0 {
        if let Ok((v, n)) = u8::spec_deserialize(input) {
            lemma_bytes_accepted(input.skip(n as int), (count - 1) as nat);
        }
    }
}

/// Whether reading a plugin response from `input` does not panic: it does
/// unless its data is present with a negative length.
fn plugin_response_accepted(input: Vec<u8>) -> (b: bool)
    ensures
        b == LoginPluginResponse::spec_accepts(input@),
{
    let ghost whole = input@;
    let mut reader = Reader::new(input);
    match VarInt::deserialize(&mut reader) {
        Err(_) => true,
        Ok(_) => {
            let ghost after_id = reader@;
            match bool::deserialize(&mut reader) {
                Ok(true) => {
                    let ghost after_flag = reader@;
                    proof {
                        if let Ok((u, n)) = varint_decode_u32(after_flag) {
                            lemma_bytes_accepted(after_flag.skip(n as int), (u as i32) as nat);
                        }
                    }
                    match VarInt::deserialize(&mut reader) {
                        Ok(length) => length.0 >= 0,
                        Err(_) => true,
                    }
                },
                _ => true,
            }
        },
    }
}

/// Whether reading the packet that `id` names in `state` from `input` does
/// not panic; only a plugin response whose data has a negative length
/// fails.
pub fn packet_accepted(id: u8, state: ServerState, input: &Vec<u8>) -> (b: bool)
    ensures
        b == sb_accepts(id, state, input@),
{
    proof {
        if let Ok((_, n)) = Identifier::spec_deserialize(input@) {
            let rest = input@.skip(n as int);
            if let Ok((true, m)) = bool::spec_deserialize(rest) {
                lemma_bytes_accepted(rest.skip(m as int), 5120);
            }
        }
    }
    match state {
        ServerState::Login => {
            if id == CUSTOM_QUERY_ANSWER_ID {
                plugin_response_accepted(input.clone())
            } else {
                true
            }
        },
        _ => true,
    }
}

} // verus!
