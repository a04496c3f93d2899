use hematite::plugins::networking::handler::{Connection, ConnectionAction, RawPacket};
use hematite::plugins::networking::socket::{VarIntDecoder, VarIntStep};
use hematite::protocol::data_types::proto_string::ProtoString;
use hematite::protocol::data_types::var_int::VarInt;
use hematite::protocol::packets::routing::{
    packet_accepted, NetworkingSBPackets, RoutedSBPacket, ServerState, LOGIN_FINISHED_ID,
};
use hematite::protocol::ser_de::reader::Reader;
use hematite::protocol::ser_de::ser::Serialize;

fn handshake_body(intent: i32) -> Vec<u8> {
    let mut body = Vec::new();
    VarInt(767).serialize(&mut body).unwrap();
    ProtoString::<255>::new("localhost".to_string())
        .serialize(&mut body)
        .unwrap();
    25565u16.serialize(&mut body).unwrap();
    VarInt(intent).serialize(&mut body).unwrap();
    body
}

fn route(id: u8, state: ServerState, body: Vec<u8>) -> RoutedSBPacket {
    let mut reader = Reader::new(body);
    RoutedSBPacket::from_id(&id, &state, &mut reader)
        .expect("known id")
        .expect("valid body")
}

#[test]
fn raw_packet_frames_length_id_and_body() {
    let mut writer = Vec::new();
    RawPacket::new(2, vec![1, 2, 3]).serialize(&mut writer).unwrap();
    assert_eq!(writer, vec![4, 2, 1, 2, 3]);

    let packet = RawPacket::from_frame(vec![2, 1, 2, 3]).unwrap();
    assert_eq!(packet.id, 2);
    assert_eq!(packet.buffer, vec![1, 2, 3]);
}

#[test]
fn raw_packet_from_empty_frame_fails() {
    assert!(RawPacket::from_frame(vec![]).is_err());
}

#[test]
fn varint_decoder_takes_bytes_one_by_one() {
    let mut decoder = VarIntDecoder::new();
    assert_eq!(decoder.push(0xdd), VarIntStep::NeedMore);
    assert_eq!(decoder.push(0xc7), VarIntStep::NeedMore);
    assert_eq!(decoder.push(0x01), VarIntStep::Done(VarInt(25565)));
    assert_eq!(decoder.push(0x05), VarIntStep::Done(VarInt(5)));
}

#[test]
fn varint_decoder_stops_after_five_bytes() {
    let mut decoder = VarIntDecoder::new();
    for _ in 0..4 {
        assert_eq!(decoder.push(0x80), VarIntStep::NeedMore);
    }
    assert_eq!(decoder.push(0x80), VarIntStep::TooLarge);
}

#[test]
fn unknown_ids_are_not_routed() {
    let mut reader = Reader::new(vec![]);
    assert!(RoutedSBPacket::from_id(&0x42, &ServerState::Handshake, &mut reader).is_none());
}

#[test]
fn handshake_with_bad_intent_is_an_error() {
    let mut reader = Reader::new(handshake_body(7));
    let routed = RoutedSBPacket::from_id(&0, &ServerState::Handshake, &mut reader);
    assert!(matches!(routed, Some(Err(_))));
}

#[test]
fn connection_runs_handshake_login_and_acknowledgement() {
    let mut connection = Connection::new();
    assert_eq!(connection.server_state, ServerState::Handshake);

    let handshake = route(0, ServerState::Handshake, handshake_body(2));
    assert!(connection.handles(&handshake));
    assert!(matches!(
        connection.handle_packet(handshake),
        ConnectionAction::Continue
    ));
    assert_eq!(connection.server_state, ServerState::Login);

    let acknowledged = route(3, ServerState::Login, vec![]);
    assert!(!connection.handles(&acknowledged));

    let mut login_body = Vec::new();
    ProtoString::<16>::new("Steve".to_string())
        .serialize(&mut login_body)
        .unwrap();
    login_body.extend_from_slice(&[7u8; 16]);
    let login_start = route(0, ServerState::Login, login_body);
    assert!(matches!(
        login_start,
        RoutedSBPacket::Networking(NetworkingSBPackets::LoginStart(_))
    ));
    assert!(connection.handles(&login_start));

    let expected_uuid = uuid::Uuid::new_v3(&uuid::Uuid::NAMESPACE_OID, b"OfflinePlayer:Steve");
    match connection.handle_packet(login_start) {
        ConnectionAction::Send(raw) => {
            assert_eq!(raw.id, LOGIN_FINISHED_ID);
            let mut expected = expected_uuid.as_bytes().to_vec();
            expected.push(5);
            expected.extend_from_slice(b"Steve");
            expected.push(0);
            assert_eq!(raw.buffer, expected);
        }
        other => panic!("unexpected action {other:?}"),
    }
    let profile = connection.player_profile.as_ref().unwrap();
    assert_eq!(profile.uuid.as_bytes(), expected_uuid.as_bytes());

    assert!(connection.handles(&acknowledged));
    match connection.handle_packet(acknowledged) {
        ConnectionAction::ClientJoined(text) => {
            assert_eq!(text, format!("Steve with UUID {expected_uuid}"));
        }
        other => panic!("unexpected action {other:?}"),
    }
    assert_eq!(connection.server_state, ServerState::Configuration);
}

#[test]
fn status_handshake_moves_to_status() {
    let mut connection = Connection::new();
    let handshake = route(0, ServerState::Handshake, handshake_body(1));
    connection.handle_packet(handshake);
    assert_eq!(connection.server_state, ServerState::Status);

    let ping = route(1, ServerState::Status, 42i64.to_be_bytes().to_vec());
    assert!(matches!(
        connection.handle_packet(ping),
        ConnectionAction::ForwardToEngine(_)
    ));
}

#[test]
fn plugin_response_with_negative_length_is_not_accepted() {
    let negative = vec![0x01, 0x01, 0xff, 0xff, 0xff, 0xff, 0x0f];
    assert!(!packet_accepted(2, ServerState::Login, &negative));
    let present = vec![0x01, 0x01, 0x02, 0xaa, 0xbb];
    assert!(packet_accepted(2, ServerState::Login, &present));
    let absent = vec![0x01, 0x00];
    assert!(packet_accepted(2, ServerState::Login, &absent));
    assert!(packet_accepted(0, ServerState::Handshake, &negative));
}
