use gbaroll::signaling::{
    decode, encode, max_players, normalize_room_code, ClientMessage, ErrorKind, PlayerInfo,
    ServerMessage, StartPlayer,
};

#[test]
fn messages_roundtrip() {
    let msgs = vec![
        ClientMessage::create_room("player", 0xdeadbeef, "TESTGAME", true),
        ClientMessage::set_ready(true),
        ClientMessage::signal(2, vec![1, 2, 3]),
        ClientMessage::kick_player(2),
    ];
    for m in msgs {
        assert_eq!(decode::<ClientMessage>(&encode(&m)).unwrap(), m);
    }

    let s = ServerMessage::starting(
        vec![
            StartPlayer { nick: "a".into(), rom_crc32: 1 },
            StartPlayer { nick: "b".into(), rom_crc32: 2 },
        ],
        1,
    );
    assert_eq!(decode::<ServerMessage>(&encode(&s)).unwrap(), s);
}

#[test]
fn room_code_normalization() {
    assert_eq!(normalize_room_code(" abc234 "), "ABC234");
}

fn hex(bytes: &[u8]) -> String {
    bytes.iter().map(|b| format!("{b:02x}")).collect()
}

fn client_fixtures() -> Vec<(&'static str, &'static str, ClientMessage)> {
    vec![
        (
            "create_room",
            "0a1c0805120672c3a93aceb118effdb6f50d22084147422d42544d4a2801",
            ClientMessage::create_room("ré:α", 0xdeadbeef, "AGB-BTMJ", true),
        ),
        (
            "join_room",
            "1216080512064142324333441a02703220848688082a0154",
            ClientMessage::join_room("AB2C3D", "p2", 0x01020304, "T"),
        ),
        ("set_ready_true", "1a020801", ClientMessage::set_ready(true)),
        ("set_ready_false", "1a00", ClientMessage::set_ready(false)),
        ("start", "2200", ClientMessage::start()),
        ("signal", "2a0808021204000102ff", ClientMessage::signal(2, vec![0, 1, 2, 255])),
        ("leave", "3200", ClientMessage::leave()),
        ("kick_player", "3a020802", ClientMessage::kick_player(2)),
    ]
}

fn server_fixtures() -> Vec<(&'static str, &'static str, ServerMessage)> {
    vec![
        (
            "roster",
            "22280a180a04686f7374100118effdb6f50d22084147422d42544d4a0a080a0270321804280310011801",
            ServerMessage::roster(
                vec![
                    PlayerInfo {
                        nick: "host".into(),
                        ready: true,
                        rom_crc32: 0xdeadbeef,
                        rom_title: "AGB-BTMJ".into(),
                        seat: 0,
                    },
                    // A seat ahead of the position: two earlier joiners left.
                    PlayerInfo {
                        nick: "p2".into(),
                        ready: false,
                        rom_crc32: 4,
                        rom_title: String::new(),
                        seat: 3,
                    },
                ],
                1,
                true,
            ),
        ),
        (
            "starting",
            "2a180a0c0a04686f737410effdb6f50d0a060a02703210041003",
            ServerMessage::starting(
                vec![
                    StartPlayer { nick: "host".into(), rom_crc32: 0xdeadbeef },
                    StartPlayer { nick: "p2".into(), rom_crc32: 4 },
                ],
                3,
            ),
        ),
        ("signal", "3200", ServerMessage::signal(0, vec![])),
        ("peer_left", "3a020802", ServerMessage::peer_left(2)),
        ("error_kicked", "42020809", ServerMessage::error(ErrorKind::Kicked, "")),
    ]
}

#[test]
fn client_messages_match_the_pinned_wire_bytes() {
    for (name, bytes, msg) in client_fixtures() {
        assert_eq!(hex(&encode(&msg)), bytes, "{name}: encode");
        assert_eq!(decode::<ClientMessage>(&encode(&msg)).unwrap(), msg, "{name}: roundtrip");
    }
}

#[test]
fn server_messages_match_the_pinned_wire_bytes() {
    for (name, bytes, msg) in server_fixtures() {
        assert_eq!(hex(&encode(&msg)), bytes, "{name}: encode");
        assert_eq!(decode::<ServerMessage>(&encode(&msg)).unwrap(), msg, "{name}: roundtrip");
    }
}

#[test]
fn unknown_fields_are_skipped() {
    // set_ready(true), with fields nobody knows before it and inside it.
    let bytes = [0xf8, 0x06, 0x01, 0x1a, 0x05, 0x08, 0x01, 0x92, 0x06, 0x00];
    assert_eq!(decode::<ClientMessage>(&bytes).unwrap(), ClientMessage::set_ready(true));
    // A group nobody knows, with something in it.
    let bytes = [0xa3, 0x06, 0x08, 0x05, 0xa4, 0x06, 0x1a, 0x02, 0x08, 0x01];
    assert_eq!(decode::<ClientMessage>(&bytes).unwrap(), ClientMessage::set_ready(true));
}

#[test]
fn broken_messages_are_refused() {
    // A length past the end.
    assert!(decode::<ClientMessage>(&[0x1a, 0x05, 0x08]).is_err());
    // A varint that never ends.
    assert!(decode::<ClientMessage>(&[0xff; 12]).is_err());
    // The wrong wire type for a field that is known.
    assert!(decode::<ClientMessage>(&[0x18, 0x01]).is_err());
    // Text that is no UTF-8.
    assert!(decode::<ServerMessage>(&[0x12, 0x03, 0x0a, 0x01, 0xff]).is_err());
    // Nothing at all is a message that says nothing.
    assert_eq!(decode::<ClientMessage>(&[]).unwrap().msg, None);
}

#[test]
fn rooms_have_their_size() {
    assert_eq!(max_players(false), 4);
    assert_eq!(max_players(true), 5);
}

#[test]
fn normalizing_twice_changes_nothing() {
    for code in ["  ab\t", "", "é", "ZZZZZZ"] {
        let once = normalize_room_code(code);
        assert_eq!(normalize_room_code(&once), once);
    }
    assert_eq!(normalize_room_code("\u{2003}q1é "), "Q1é");
}

#[test]
fn error_kinds_read_back() {
    for kind in [ErrorKind::Kicked, ErrorKind::RoomFull, ErrorKind::RoomNotFound] {
        let m = ServerMessage::error(kind, "why");
        match decode::<ServerMessage>(&encode(&m)).unwrap().msg {
            Some(gbaroll::signaling::server_message::Msg::Error(e)) => {
                assert_eq!(e.kind(), kind);
                assert_eq!(e.message, "why");
            },
            other => panic!("{other:?}"),
        }
    }
}

/// An unknown field: groups inside each other.
fn groups(n: usize) -> Vec<u8> {
    let mut bytes = Vec::new();
    for _ in 0..n {
        bytes.extend_from_slice(&[0xa3, 0x01]);
    }
    for _ in 0..n {
        bytes.extend_from_slice(&[0xa4, 0x01]);
    }
    bytes
}

#[test]
fn unknown_groups_nest_as_deep_as_they_may() {
    let outermost = |n: usize| decode::<ClientMessage>(&groups(n)).is_ok();
    let by_prost = |n: usize| <() as prost::Message>::decode(&groups(n)[..]).is_ok();
    for n in [1, 99, 100, 101] {
        assert_eq!(outermost(n), by_prost(n), "{n}");
    }
    assert!(outermost(100) && !outermost(101));

    // Inside a message there is one level less.
    let framed = |n: usize| {
        let mut bytes = Vec::new();
        prost::encoding::encode_varint(groups(n).len() as u64, &mut bytes);
        bytes.extend_from_slice(&groups(n));
        bytes
    };
    let inside = |n: usize| {
        let mut bytes = vec![0x1a];
        bytes.extend_from_slice(&framed(n));
        decode::<ClientMessage>(&bytes).is_ok()
    };
    let by_prost = |n: usize| {
        let ctx = prost::encoding::DecodeContext::default();
        let wire = prost::encoding::WireType::LengthDelimited;
        prost::encoding::message::merge(wire, &mut (), &mut &framed(n)[..], ctx).is_ok()
    };
    for n in [1, 98, 99, 100] {
        assert_eq!(inside(n), by_prost(n), "{n}");
    }
    assert!(inside(99) && !inside(100));
}
