//! Whether the packet routing agrees with the packet list resolved against
//! the game's packet report.
use vstd::prelude::*;

use crate::packet_registry::{Direction, PacketWithMetadata};
use crate::protocol::packets::routing::{
    sb_route, EngineCBPackets, NetworkingCBPackets, RoutedCBPacket, SBKind, ServerState, COOKIE_REQUEST_ID,
    COOKIE_RESPONSE_ID, CUSTOM_QUERY_ANSWER_ID, CUSTOM_QUERY_ID, HELLO_ID, INTENTION_ID, LOGIN_ACKNOWLEDGED_ID,
    LOGIN_DISCONNECT_ID, LOGIN_FINISHED_ID, PING_REQUEST_ID, PONG_RESPONSE_ID, STATUS_REQUEST_ID, STATUS_RESPONSE_ID,
};

verus! {

/// The kinds of clientbound packets.
#[derive(Debug, Clone, Copy, PartialEq, Eq, Structural)]
pub enum CBKind {
    LoginDisconnect,
    LoginSuccess,
    LoginPluginRequest,
    CookieRequest,
    PongResponse,
    StatusResponse,
}

/// The kind of a clientbound packet.
pub open spec fn cb_kind_of(p: RoutedCBPacket) -> CBKind {
    match p {
        RoutedCBPacket::Networking(NetworkingCBPackets::LoginDisconnect(_)) => CBKind::LoginDisconnect,
        RoutedCBPacket::Networking(NetworkingCBPackets::LoginSuccess(_)) => CBKind::LoginSuccess,
        RoutedCBPacket::Networking(NetworkingCBPackets::LoginPluginRequest(_)) => CBKind::LoginPluginRequest,
        RoutedCBPacket::Networking(NetworkingCBPackets::CookieRequest(_)) => CBKind::CookieRequest,
        RoutedCBPacket::Engine(EngineCBPackets::PongResponse(_)) => CBKind::PongResponse,
        RoutedCBPacket::Engine(EngineCBPackets::StatusResponse(_)) => CBKind::StatusResponse,
    }
}

/// The state in which a serverbound kind is read.
pub open spec fn sb_kind_state(k: SBKind) -> ServerState {
    match k {
        SBKind::Handshake => ServerState::Handshake,
        SBKind::PingRequest | SBKind::StatusRequest => ServerState::Status,
        _ => ServerState::Login,
    }
}

/// The id under which a serverbound kind is read.
pub open spec fn sb_kind_id(k: SBKind) -> u8 {
    match k {
        SBKind::Handshake => INTENTION_ID,
        SBKind::PingRequest => PING_REQUEST_ID,
        SBKind::StatusRequest => STATUS_REQUEST_ID,
        SBKind::LoginStart => HELLO_ID,
        SBKind::LoginPluginResponse => CUSTOM_QUERY_ANSWER_ID,
        SBKind::LoginAcknowledged => LOGIN_ACKNOWLEDGED_ID,
        SBKind::CookieResponse => COOKIE_RESPONSE_ID,
    }
}

/// Whether the networking layer handles a serverbound kind.
pub open spec fn sb_kind_networking(k: SBKind) -> bool {
    !(k == SBKind::PingRequest || k == SBKind::StatusRequest)
}

/// The state of a clientbound kind.
pub open spec fn cb_kind_state(k: CBKind) -> ServerState {
    match k {
        CBKind::PongResponse | CBKind::StatusResponse => ServerState::Status,
        _ => ServerState::Login,
    }
}

/// The id with which a clientbound kind is sent.
pub open spec fn cb_kind_id(k: CBKind) -> u8 {
    match k {
        CBKind::LoginDisconnect => LOGIN_DISCONNECT_ID,
        CBKind::LoginSuccess => LOGIN_FINISHED_ID,
        CBKind::LoginPluginRequest => CUSTOM_QUERY_ID,
        CBKind::CookieRequest => COOKIE_REQUEST_ID,
        CBKind::PongResponse => PONG_RESPONSE_ID,
        CBKind::StatusResponse => STATUS_RESPONSE_ID,
    }
}

/// Whether the networking layer sends a clientbound kind.
pub open spec fn cb_kind_networking(k: CBKind) -> bool {
    !(k == CBKind::PongResponse || k == CBKind::StatusResponse)
}

/// The serverbound kind that a packet type name names.
pub open spec fn sb_kind_named(name: Seq<char>) -> Option<SBKind> {
    if name == "Handshake"@ {
        Some(SBKind::Handshake)
    } else if name == "PingRequest"@ {
        Some(SBKind::PingRequest)
    } else if name == "StatusRequest"@ {
        Some(SBKind::StatusRequest)
    } else if name == "LoginStart"@ {
        Some(SBKind::LoginStart)
    } else if name == "LoginPluginResponse"@ {
        Some(SBKind::LoginPluginResponse)
    } else if name == "LoginAcknowledged"@ {
        Some(SBKind::LoginAcknowledged)
    } else if name == "CookieResponse"@ {
        Some(SBKind::CookieResponse)
    } else {
        None
    }
}

/// The clientbound kind that a packet type name names.
pub open spec fn cb_kind_named(name: Seq<char>) -> Option<CBKind> {
    if name == "LoginDisconnect"@ {
        Some(CBKind::LoginDisconnect)
    } else if name == "LoginSuccess"@ {
        Some(CBKind::LoginSuccess)
    } else if name == "LoginPluginRequest"@ {
        Some(CBKind::LoginPluginRequest)
    } else if name == "CookieRequest"@ {
        Some(CBKind::CookieRequest)
    } else if name == "PongResponse"@ {
        Some(CBKind::PongResponse)
    } else if name == "StatusResponse"@ {
        Some(CBKind::StatusResponse)
    } else {
        None
    }
}

/// The connection state that a state name of the packet list names.
pub open spec fn state_named(name: Seq<char>) -> Option<ServerState> {
    if name == "Handshake"@ {
        Some(ServerState::Handshake)
    } else if name == "Status"@ {
        Some(ServerState::Status)
    } else if name == "Login"@ {
        Some(ServerState::Login)
    } else if name == "Configuration"@ {
        Some(ServerState::Configuration)
    } else if name == "Play"@ {
        Some(ServerState::Play)
    } else {
        None
    }
}

/// Whether the routing handles the resolved packet `m` as the list says: a
/// packet kind of that name, in that state, under that id, on that layer.
pub open spec fn routes_packet(m: PacketWithMetadata) -> bool {
    match m.direction {
        Direction::Serverbound => {
            &&& sb_kind_named(m.ident@) matches Some(k)
            &&& state_named(m.state@) == Some(sb_kind_state(k))
            &&& sb_kind_id(k) == m.id
            &&& sb_kind_networking(k) == m.is_networking_layer
        },
        Direction::Clientbound => {
            &&& cb_kind_named(m.ident@) matches Some(k)
            &&& state_named(m.state@) == Some(cb_kind_state(k))
            &&& cb_kind_id(k) == m.id
            &&& cb_kind_networking(k) == m.is_networking_layer
        },
    }
}

/// Whether the list has a serverbound packet of kind `k`.
pub open spec fn lists_sb_kind(list: Seq<PacketWithMetadata>, k: SBKind) -> bool {
    exists|i: int|
        0 <= i < list.len() && #[trigger] list[i].direction == Direction::Serverbound && sb_kind_named(list[i].ident@)
            == Some(k)
}

/// Whether the list has a clientbound packet of kind `k`.
pub open spec fn lists_cb_kind(list: Seq<PacketWithMetadata>, k: CBKind) -> bool {
    exists|i: int|
        0 <= i < list.len() && #[trigger] list[i].direction == Direction::Clientbound && cb_kind_named(list[i].ident@)
            == Some(k)
}

/// Whether the routing is exactly the resolved packet list: every listed
/// packet is routed as the list says, and every packet kind is listed.
pub open spec fn routing_agrees(list: Seq<PacketWithMetadata>) -> bool {
    &&& forall|i: int| 0 <= i < list.len() ==> routes_packet(#[trigger] list[i])
    &&& forall|k: SBKind| #[trigger] lists_sb_kind(list, k)
    &&& forall|k: CBKind| #[trigger] lists_cb_kind(list, k)
}

/// The serverbound routing reads, in each state, exactly the kinds of that
/// state, each under its id.
pub proof fn lemma_sb_route(id: u8, state: ServerState, k: SBKind)
    ensures
        sb_route(id, state) == Some(k) <==> (sb_kind_id(k) == id && sb_kind_state(k) == state),
{
}

/// The id a clientbound packet is sent with is that of its kind.
pub proof fn lemma_cb_id(p: RoutedCBPacket)
    ensures
        p.spec_id() == cb_kind_id(cb_kind_of(p)),
{
}

/// When the routing agrees with a resolved packet list, reading a packet
/// succeeds in routing exactly for an id and state under which the list has
/// a serverbound packet, of the kind read, on the layer the list names; and
/// a clientbound packet is sent with the id the list gives it.
pub proof fn lemma_routing_follows_list(list: Seq<PacketWithMetadata>, id: u8, state: ServerState, p: RoutedCBPacket)
    requires
        routing_agrees(list),
    ensures
        sb_route(id, state) is Some <==> exists|i: int|
            0 <= i < list.len() && #[trigger] list[i].direction == Direction::Serverbound && state_named(
                list[i].state@,
            ) == Some(state) && list[i].id == id,
        forall|i: int|
            0 <= i < list.len() && #[trigger] list[i].direction == Direction::Serverbound && state_named(
                list[i].state@,
            ) == Some(state) && list[i].id == id ==> sb_route(id, state) == sb_kind_named(list[i].ident@)
                && sb_kind_networking(sb_kind_named(list[i].ident@)->0) == list[i].is_networking_layer,
        exists|i: int|
            0 <= i < list.len() && #[trigger] list[i].direction == Direction::Clientbound && cb_kind_named(
                list[i].ident@,
            ) == Some(cb_kind_of(p)) && list[i].id == p.spec_id() && list[i].is_networking_layer == cb_kind_networking(
                cb_kind_of(p),
            ),
{
    if let Some(k) = sb_route(id, state) {
        lemma_sb_route(id, state, k);
        assert(lists_sb_kind(list, k));
        let i = choose|i: int|
            0 <= i < list.len() && #[trigger] list[i].direction == Direction::Serverbound && sb_kind_named(list[i].ident@)
                == Some(k);
        assert(routes_packet(list[i]));
    }
    assert forall|i: int|
        0 <= i < list.len() && #[trigger] list[i].direction == Direction::Serverbound && state_named(list[i].state@)
            == Some(state) && list[i].id == id implies sb_route(id, state) == sb_kind_named(list[i].ident@)
        && sb_kind_networking(sb_kind_named(list[i].ident@)->0) == list[i].is_networking_layer by {
        assert(routes_packet(list[i]));
        let k = sb_kind_named(list[i].ident@)->0;
        lemma_sb_route(id, state, k);
    }
    let k = cb_kind_of(p);
    assert(lists_cb_kind(list, k));
    let i = choose|i: int|
        0 <= i < list.len() && #[trigger] list[i].direction == Direction::Clientbound && cb_kind_named(list[i].ident@)
            == Some(k);
    assert(routes_packet(list[i]));
}

/// Whether `name` is the text `w`.
fn text_is(name: &String, w: &str) -> (b: bool)
    ensures
        b == (name@ == w@),
{
    *name == w.to_owned()
}

fn sb_kind_named_exec(name: &String) -> (r: Option<SBKind>)
    ensures
        r == sb_kind_named(name@),
{
    if text_is(name, "Handshake") {
        Some(SBKind::Handshake)
    } else if text_is(name, "PingRequest") {
        Some(SBKind::PingRequest)
    } else if text_is(name, "StatusRequest") {
        Some(SBKind::StatusRequest)
    } else if text_is(name, "LoginStart") {
        Some(SBKind::LoginStart)
    } else if text_is(name, "LoginPluginResponse") {
        Some(SBKind::LoginPluginResponse)
    } else if text_is(name, "LoginAcknowledged") {
        Some(SBKind::LoginAcknowledged)
    } else if text_is(name, "CookieResponse") {
        Some(SBKind::CookieResponse)
    } else {
        None
    }
}

fn cb_kind_named_exec(name: &String) -> (r: Option<CBKind>)
    ensures
        r == cb_kind_named(name@),
{
    if text_is(name, "LoginDisconnect") {
        Some(CBKind::LoginDisconnect)
    } else if text_is(name, "LoginSuccess") {
        Some(CBKind::LoginSuccess)
    } else if text_is(name, "LoginPluginRequest") {
        Some(CBKind::LoginPluginRequest)
    } else if text_is(name, "CookieRequest") {
        Some(CBKind::CookieRequest)
    } else if text_is(name, "PongResponse") {
        Some(CBKind::PongResponse)
    } else if text_is(name, "StatusResponse") {
        Some(CBKind::StatusResponse)
    } else {
        None
    }
}

fn state_named_exec(name: &String) -> (r: Option<ServerState>)
    ensures
        r == state_named(name@),
{
    if text_is(name, "Handshake") {
        Some(ServerState::Handshake)
    } else if text_is(name, "Status") {
        Some(ServerState::Status)
    } else if text_is(name, "Login") {
        Some(ServerState::Login)
    } else if text_is(name, "Configuration") {
        Some(ServerState::Configuration)
    } else if text_is(name, "Play") {
        Some(ServerState::Play)
    } else {
        None
    }
}

fn sb_kind_state_exec(k: SBKind) -> (r: ServerState)
    ensures
        r == sb_kind_state(k),
{
    match k {
        SBKind::Handshake => ServerState::Handshake,
        SBKind::PingRequest | SBKind::StatusRequest => ServerState::Status,
        _ => ServerState::Login,
    }
}

fn sb_kind_id_exec(k: SBKind) -> (r: u8)
    ensures
        r == sb_kind_id(k),
{
    match k {
        SBKind::Handshake => INTENTION_ID,
        SBKind::PingRequest => PING_REQUEST_ID,
        SBKind::StatusRequest => STATUS_REQUEST_ID,
        SBKind::LoginStart => HELLO_ID,
        SBKind::LoginPluginResponse => CUSTOM_QUERY_ANSWER_ID,
        SBKind::LoginAcknowledged => LOGIN_ACKNOWLEDGED_ID,
        SBKind::CookieResponse => COOKIE_RESPONSE_ID,
    }
}

fn cb_kind_state_exec(k: CBKind) -> (r: ServerState)
    ensures
        r == cb_kind_state(k),
{
    match k {
        CBKind::PongResponse | CBKind::StatusResponse => ServerState::Status,
        _ => ServerState::Login,
    }
}

fn cb_kind_id_exec(k: CBKind) -> (r: u8)
    ensures
        r == cb_kind_id(k),
{
    match k {
        CBKind::LoginDisconnect => LOGIN_DISCONNECT_ID,
        CBKind::LoginSuccess => LOGIN_FINISHED_ID,
        CBKind::LoginPluginRequest => CUSTOM_QUERY_ID,
        CBKind::CookieRequest => COOKIE_REQUEST_ID,
        CBKind::PongResponse => PONG_RESPONSE_ID,
        CBKind::StatusResponse => STATUS_RESPONSE_ID,
    }
}

fn same_state(a: ServerState, b: ServerState) -> (r: bool)
    ensures
        r == (a == b),
{
    match (a, b) {
        (ServerState::Handshake, ServerState::Handshake) => true,
        (ServerState::Status, ServerState::Status) => true,
        (ServerState::Login, ServerState::Login) => true,
        (ServerState::Configuration, ServerState::Configuration) => true,
        (ServerState::Play, ServerState::Play) => true,
        _ => false,
    }
}

/// Decides [`routes_packet`].
fn routes_packet_exec(m: &PacketWithMetadata) -> (b: bool)
    ensures
        b == routes_packet(*m),
{
    match m.direction {
        Direction::Serverbound => match sb_kind_named_exec(&m.ident) {
            None => false,
            Some(k) => match state_named_exec(&m.state) {
                None => false,
                Some(st) => {
                    let networking = match k {
                        SBKind::PingRequest | SBKind::StatusRequest => false,
                        _ => true,
                    };
                    same_state(st, sb_kind_state_exec(k)) && sb_kind_id_exec(k) == m.id && networking
                        == m.is_networking_layer
                },
            },
        },
        Direction::Clientbound => match cb_kind_named_exec(&m.ident) {
            None => false,
            Some(k) => match state_named_exec(&m.state) {
                None => false,
                Some(st) => {
                    let networking = match k {
                        CBKind::PongResponse | CBKind::StatusResponse => false,
                        _ => true,
                    };
                    same_state(st, cb_kind_state_exec(k)) && cb_kind_id_exec(k) == m.id && networking
                        == m.is_networking_layer
                },
            },
        },
    }
}

/// Whether the list has a serverbound packet of kind `k`.
fn lists_sb(list: &Vec<PacketWithMetadata>, k: SBKind) -> (b: bool)
    ensures
        b == lists_sb_kind(list@, k),
{
    let mut i: usize = 0;
    while i < list.len()
        invariant
            i <= list@.len(),
            forall|j: int|
                0 <= j < i ==> !(#[trigger] list@[j].direction == Direction::Serverbound && sb_kind_named(
                    list@[j].ident@,
                ) == Some(k)),
        decreases list.len() - i,
    {
        if list[i].direction == Direction::Serverbound {
            if let Some(k2) = sb_kind_named_exec(&list[i].ident) {
                if k2 == k {
                    return true;
                }
            }
        }
        i = i + 1;
    }
    false
}

/// Whether the list has a clientbound packet of kind `k`.
fn lists_cb(list: &Vec<PacketWithMetadata>, k: CBKind) -> (b: bool)
    ensures
        b == lists_cb_kind(list@, k),
{
    let mut i: usize = 0;
    while i < list.len()
        invariant
            i <= list@.len(),
            forall|j: int|
                0 <= j < i ==> !(#[trigger] list@[j].direction == Direction::Clientbound && cb_kind_named(
                    list@[j].ident@,
                ) == Some(k)),
        decreases list.len() - i,
    {
        if list[i].direction == Direction::Clientbound {
            if let Some(k2) = cb_kind_named_exec(&list[i].ident) {
                if k2 == k {
                    return true;
                }
            }
        }
        i = i + 1;
    }
    false
}

/// Checks that the packet routing is exactly the resolved packet list: every
/// listed packet is routed under its state, id and layer, and every packet
/// kind the routing knows is listed.
pub fn routing_matches(list: &Vec<PacketWithMetadata>) -> (b: bool)
    ensures
        b == routing_agrees(list@),
{
    let mut i: usize = 0;
    while i < list.len()
        invariant
            i <= list@.len(),
            forall|j: int| 0 <= j < i ==> routes_packet(#[trigger] list@[j]),
        decreases list.len() - i,
    {
        if !routes_packet_exec(&list[i]) {
            return false;
        }
        i = i + 1;
    }
    let sb = lists_sb(list, SBKind::Handshake) && lists_sb(list, SBKind::PingRequest) && lists_sb(
        list,
        SBKind::StatusRequest,
    ) && lists_sb(list, SBKind::LoginStart) && lists_sb(list, SBKind::LoginPluginResponse) && lists_sb(
        list,
        SBKind::LoginAcknowledged,
    ) && lists_sb(list, SBKind::CookieResponse);
    let cb = lists_cb(list, CBKind::LoginDisconnect) && lists_cb(list, CBKind::LoginSuccess) && lists_cb(
        list,
        CBKind::LoginPluginRequest,
    ) && lists_cb(list, CBKind::CookieRequest) && lists_cb(list, CBKind::PongResponse) && lists_cb(
        list,
        CBKind::StatusResponse,
    );
    proof {
        if sb {
            assert forall|k: SBKind| #[trigger] lists_sb_kind(list@, k) by {
                match k {
                    SBKind::Handshake => {},
                    SBKind::PingRequest => {},
                    SBKind::StatusRequest => {},
                    SBKind::LoginStart => {},
                    SBKind::LoginPluginResponse => {},
                    SBKind::LoginAcknowledged => {},
                    SBKind::CookieResponse => {},
                }
            }
        }
        if cb {
            assert forall|k: CBKind| #[trigger] lists_cb_kind(list@, k) by {
                match k {
                    CBKind::LoginDisconnect => {},
                    CBKind::LoginSuccess => {},
                    CBKind::LoginPluginRequest => {},
                    CBKind::CookieRequest => {},
                    CBKind::PongResponse => {},
                    CBKind::StatusResponse => {},
                }
            }
        }
    }
    sb && cb
}

} // verus!
