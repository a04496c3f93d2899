use hematite::packet_list::resolve_packet_list;
use hematite::packet_registry::{Direction, Packet, Sides};
use hematite::protocol::packets::route_check::routing_matches;
use hematite::protocol::packets::routing::{
    COOKIE_REQUEST_ID, COOKIE_RESPONSE_ID, CUSTOM_QUERY_ANSWER_ID, CUSTOM_QUERY_ID, HELLO_ID,
    INTENTION_ID, LOGIN_ACKNOWLEDGED_ID, LOGIN_DISCONNECT_ID, LOGIN_FINISHED_ID, PACKET_LIST,
    PING_REQUEST_ID, PONG_RESPONSE_ID, STATUS_REQUEST_ID, STATUS_RESPONSE_ID,
};

fn side(entries: &[(&str, u8)]) -> Option<Vec<(String, Packet)>> {
    Some(
        entries
            .iter()
            .map(|(name, id)| (format!("minecraft:{name}"), Packet { protocol_id: *id }))
            .collect(),
    )
}

/// The ids of the handshake, status and login packets in the game's packet
/// report.
fn report() -> Vec<(String, Sides)> {
    vec![
        (
            "handshake".to_string(),
            Sides { clientbound: None, serverbound: side(&[("intention", 0)]) },
        ),
        (
            "status".to_string(),
            Sides {
                clientbound: side(&[("status_response", 0), ("pong_response", 1)]),
                serverbound: side(&[("status_request", 0), ("ping_request", 1)]),
            },
        ),
        (
            "login".to_string(),
            Sides {
                clientbound: side(&[
                    ("login_disconnect", 0),
                    ("hello", 1),
                    ("login_finished", 2),
                    ("login_compression", 3),
                    ("custom_query", 4),
                    ("cookie_request", 5),
                ]),
                serverbound: side(&[
                    ("hello", 0),
                    ("key", 1),
                    ("custom_query_answer", 2),
                    ("login_acknowledged", 3),
                    ("cookie_response", 4),
                ]),
            },
        ),
    ]
}

#[test]
fn routing_ids_match_the_resolved_packet_list() {
    let packets = resolve_packet_list(PACKET_LIST, &report()).unwrap();
    let expected: Vec<(&str, Direction, u8)> = vec![
        ("Handshake", Direction::Serverbound, INTENTION_ID),
        ("PingRequest", Direction::Serverbound, PING_REQUEST_ID),
        ("StatusRequest", Direction::Serverbound, STATUS_REQUEST_ID),
        ("PongResponse", Direction::Clientbound, PONG_RESPONSE_ID),
        ("StatusResponse", Direction::Clientbound, STATUS_RESPONSE_ID),
        ("LoginStart", Direction::Serverbound, HELLO_ID),
        ("LoginPluginResponse", Direction::Serverbound, CUSTOM_QUERY_ANSWER_ID),
        ("LoginAcknowledged", Direction::Serverbound, LOGIN_ACKNOWLEDGED_ID),
        ("CookieResponse", Direction::Serverbound, COOKIE_RESPONSE_ID),
        ("LoginDisconnect", Direction::Clientbound, LOGIN_DISCONNECT_ID),
        ("LoginSuccess", Direction::Clientbound, LOGIN_FINISHED_ID),
        ("LoginPluginRequest", Direction::Clientbound, CUSTOM_QUERY_ID),
        ("CookieRequest", Direction::Clientbound, COOKIE_REQUEST_ID),
    ];
    assert_eq!(packets.len(), expected.len());
    for (ident, direction, id) in expected {
        let found = packets
            .iter()
            .find(|p| p.ident == ident && p.direction == direction)
            .unwrap_or_else(|| panic!("{ident} not resolved"));
        assert_eq!(found.id, id, "id of {ident}");
    }
}

#[test]
fn routing_matches_the_resolved_packet_list() {
    let mut packets = resolve_packet_list(PACKET_LIST, &report()).unwrap();
    assert!(routing_matches(&packets));
    packets[0].id = 7;
    assert!(!routing_matches(&packets));
    packets.remove(0);
    assert!(!routing_matches(&packets));
}
