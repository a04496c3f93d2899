use hematite::packet_list::{
    declarations, parse_packet_list, resolve_packet_list, DeclarationError, PacketListError,
};
use hematite::packet_registry::{Direction, Packet, ResolveFailure, Sides};

const LIST: &str = r#"
    Handshake (networking):
        SB {
            Handshake = "intention",
        };

    Status:
        SB {
            PingRequest,
            StatusRequest,
        }
        CB {
            PongResponse,
            StatusResponse,
        };

    Configuration:
        SB {}
        CB {};
"#;

fn report() -> Vec<(String, Sides)> {
    let side = |entries: &[(&str, u8)]| {
        Some(
            entries
                .iter()
                .map(|(name, id)| (name.to_string(), Packet { protocol_id: *id }))
                .collect(),
        )
    };
    vec![
        (
            "handshake".to_string(),
            Sides {
                clientbound: None,
                serverbound: side(&[("minecraft:intention", 0)]),
            },
        ),
        (
            "status".to_string(),
            Sides {
                clientbound: side(&[("minecraft:pong_response", 1), ("minecraft:status_response", 0)]),
                serverbound: side(&[("minecraft:ping_request", 1), ("minecraft:status_request", 0)]),
            },
        ),
    ]
}

#[test]
fn packet_list_parses_groups_and_blocks() {
    let groups = parse_packet_list(LIST).unwrap();
    assert_eq!(groups.len(), 3);
    assert_eq!(groups[0].state, "Handshake");
    assert!(groups[0].is_networking_side);
    assert_eq!(groups[0].directions.len(), 1);
    assert_eq!(groups[0].directions[0].direction, Direction::Serverbound);
    assert_eq!(groups[0].directions[0].entries[0].ident, "Handshake");
    assert_eq!(
        groups[0].directions[0].entries[0].internal_name,
        Some("intention".to_string())
    );
    assert!(!groups[1].is_networking_side);
    assert_eq!(groups[1].directions[1].direction, Direction::Clientbound);
    assert_eq!(groups[1].directions[1].entries.len(), 2);
    assert_eq!(groups[2].directions[0].entries.len(), 0);
}

#[test]
fn packet_list_resolves_against_report() {
    let packets = resolve_packet_list(LIST, &report()).unwrap();
    let summary: Vec<(String, String, u8, Direction, bool)> = packets
        .iter()
        .map(|p| {
            (
                p.ident.clone(),
                p.internal_name.clone(),
                p.id,
                p.direction,
                p.is_networking_layer,
            )
        })
        .collect();
    assert_eq!(
        summary,
        vec![
            ("Handshake".to_string(), "intention".to_string(), 0, Direction::Serverbound, true),
            ("PingRequest".to_string(), "ping_request".to_string(), 1, Direction::Serverbound, false),
            ("StatusRequest".to_string(), "status_request".to_string(), 0, Direction::Serverbound, false),
            ("PongResponse".to_string(), "pong_response".to_string(), 1, Direction::Clientbound, false),
            ("StatusResponse".to_string(), "status_response".to_string(), 0, Direction::Clientbound, false),
        ]
    );
}

#[test]
fn packet_list_reports_unknown_packets() {
    match resolve_packet_list("Status: SB { Missing, };", &report()) {
        Err(PacketListError::Resolve(e)) => {
            assert_eq!(e.kind, ResolveFailure::UnknownPacket);
            assert_eq!(e.name, "missing");
        }
        other => panic!("unexpected {other:?}"),
    }
    match resolve_packet_list("Status: SB { lowerCase };", &report()) {
        Err(PacketListError::Resolve(e)) => assert_eq!(e.kind, ResolveFailure::InvalidName),
        other => panic!("unexpected {other:?}"),
    }
}

#[test]
fn packet_list_syntax_errors_carry_positions() {
    assert_eq!(
        parse_packet_list("Play (engine): ;").unwrap_err(),
        DeclarationError::NotNetworking(6)
    );
    assert_eq!(
        parse_packet_list("Play: XB {};").unwrap_err(),
        DeclarationError::UnknownDirection(6)
    );
    assert_eq!(
        parse_packet_list("Play: SB { A B };").unwrap_err(),
        DeclarationError::Unexpected(13)
    );
    assert_eq!(
        parse_packet_list("Play: SB { A = name };").unwrap_err(),
        DeclarationError::Unexpected(15)
    );
    assert_eq!(
        parse_packet_list("Play: SB {}").unwrap_err(),
        DeclarationError::Unexpected(11)
    );
    assert!(parse_packet_list("  \n ").unwrap().is_empty());
}

#[test]
fn later_groups_and_blocks_replace_earlier_ones() {
    let groups = parse_packet_list("A: SB { X } SB { Y }; B: CB { Z }; A: CB { W };").unwrap();
    let decls = declarations(&groups);
    let idents: Vec<&str> = decls.iter().map(|d| d.entry.ident.as_str()).collect();
    assert_eq!(idents, vec!["Z", "W"]);

    let groups = parse_packet_list("A: SB { X } SB { Y } CB { V };").unwrap();
    let decls = declarations(&groups);
    let idents: Vec<&str> = decls.iter().map(|d| d.entry.ident.as_str()).collect();
    assert_eq!(idents, vec!["Y", "V"]);
}

#[test]
fn packet_list_skips_comments_and_reads_escapes() {
    let text = "// the states\nStatus /* engine side /* nested */ */ :\n SB { A = \"a\\\"b\\\\c\\n\" , // trailing\n };";
    let groups = parse_packet_list(text).unwrap();
    assert_eq!(groups.len(), 1);
    assert_eq!(groups[0].state, "Status");
    assert_eq!(
        groups[0].directions[0].entries[0].internal_name,
        Some("a\"b\\c\n".to_string())
    );
    assert_eq!(
        parse_packet_list("A: SB { B = \"x\\q\" };").unwrap_err(),
        DeclarationError::Unexpected(12)
    );
    assert_eq!(
        parse_packet_list("/* open").unwrap_err(),
        DeclarationError::Unexpected(0)
    );
}

#[test]
fn packet_list_reads_hex_escapes() {
    let groups = parse_packet_list("A: SB { B = \"\\x41\\x7e\" };").unwrap();
    assert_eq!(
        groups[0].directions[0].entries[0].internal_name,
        Some("A~".to_string())
    );
    assert!(parse_packet_list("A: SB { B = \"\\x80\" };").is_err());
}

#[test]
fn packet_list_rejects_keywords_and_underscore() {
    assert_eq!(parse_packet_list("fn: SB {};").unwrap_err(), DeclarationError::Unexpected(0));
    assert_eq!(
        parse_packet_list("A: SB { _ };").unwrap_err(),
        DeclarationError::Unexpected(8)
    );
    assert_eq!(
        parse_packet_list("A: SB { type };").unwrap_err(),
        DeclarationError::Unexpected(8)
    );
    assert!(parse_packet_list("A: SB { _B, types };").is_ok());
}

#[test]
fn packet_list_reads_unicode_escapes_and_continuations() {
    let groups =
        parse_packet_list("A: SB { B = \"\\u{1F980}\\u{41}x\\\n     y\" };").unwrap();
    assert_eq!(
        groups[0].directions[0].entries[0].internal_name,
        Some("🦀Axy".to_string())
    );
    assert!(parse_packet_list("A: SB { B = \"\\u{D800}\" };").is_err());
    assert!(parse_packet_list("A: SB { B = \"\\u{1234567}\" };").is_err());
    assert!(parse_packet_list("A: SB { B = \"\\u{}\" };").is_err());
}
