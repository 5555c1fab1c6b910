use gbaroll::net::boots::{boot_messages, collect_boots, BootError, BootReceiver};
use gbaroll::net::lobby::{
    error_text, Lobby, LobbyArgs, LobbyCommand, LobbyEvent, LobbyInput, LobbyMode, LobbyOutput,
    LobbyPhase,
};
use gbaroll::net::mesh::{
    local_candidate, state_event, ConnectionState, Mesh, MeshError, MeshInput, MeshOutput, PeerEvent, DEPARTED_GRACE_MS,
};
use gbaroll::net::packing::CodecError;
use gbaroll::net::protocol::{
    BootBlob, Input, Meta, PeerControl, PeerSignal, Proto, HORIZON, MAX_BOOT_SIZE, NET_VERSION,
};
use gbaroll::signaling::{
    decode, encode, server_message, ClientMessage, ErrorKind, PlayerInfo, ServerMessage,
    StartPlayer,
};

#[test]
fn meta_roundtrips() {
    for meta in [
        Meta::default(),
        Meta { tick_advantage: -37, checkpoint_tick: 123456, checkpoint_digest: 0xdeadbeef },
    ] {
        let mut bytes = Vec::new();
        meta.encode(&mut bytes);
        let (read, used) = Meta::decode(&bytes[..]).unwrap();
        assert_eq!(read, meta);
        assert_eq!(used, bytes.len());
    }
}

#[test]
fn boot_blob_roundtrips_and_compresses() {
    let blob = BootBlob {
        state: vec![0u8; 400 * 1024],
        save: Some(vec![0xffu8; 32 * 1024]),
        clock_unix_micros: 1_700_000_000_000_000,
    };
    let encoded = blob.encode().unwrap();
    assert!(encoded.len() < blob.state.len() / 4);
    assert_eq!(BootBlob::decode(&encoded).unwrap(), blob);
}

#[test]
fn inputs_are_two_bytes() {
    let mut bytes = Vec::new();
    Input(0x155).encode(&mut bytes);
    assert_eq!(bytes, vec![0x55, 0x01]);
    assert_eq!(Input::decode(&bytes).unwrap().unwrap().0, Input(0x155));
    assert_eq!(Input::decode(&[]).unwrap(), None);
}

#[test]
fn cut_metas_are_told() {
    let mut bytes = Vec::new();
    Meta { tick_advantage: 1, checkpoint_tick: 2, checkpoint_digest: 3 }.encode(&mut bytes);
    assert_eq!(Meta::decode(&bytes[..bytes.len() - 1]), Err(CodecError::UnexpectedEof));
    assert_eq!(Meta::decode(&[0xff; 20]), Err(CodecError::Overlong));
    // A number of 33 bits where a tick stands.
    assert_eq!(
        Meta::decode(&[0, 0xff, 0xff, 0xff, 0xff, 0x1f, 0, 0, 0, 0]),
        Err(CodecError::CheckpointTick)
    );
    // An advantage past 16 bits.
    assert_eq!(
        Meta::decode(&[0xff, 0xff, 0xff, 0x07, 0, 0, 0, 0, 0]),
        Err(CodecError::TickAdvantage)
    );
}

#[test]
fn controls_are_as_bincode_has_them() {
    assert_eq!(
        PeerControl::Hello { net_version: 3 }.encode().unwrap(),
        vec![0, 0, 0, 0, 3, 0, 0, 0]
    );
    assert_eq!(PeerControl::Quit.encode().unwrap(), vec![1, 0, 0, 0]);
    assert_eq!(
        PeerControl::BootChunk(vec![7, 8]).encode().unwrap(),
        vec![3, 0, 0, 0, 2, 0, 0, 0, 0, 0, 0, 0, 7, 8]
    );
    for c in [
        PeerControl::Quit,
        PeerControl::Boot { len: 9 },
        PeerControl::BootChunk(vec![1]),
        PeerControl::Hello { net_version: 1 },
    ] {
        assert_eq!(PeerControl::decode(&c.encode().unwrap()), Some(c));
    }
    assert_eq!(PeerControl::decode(&[9, 0, 0, 0]), None);
    assert_eq!(PeerControl::decode(&[1, 0]), None);
}

#[test]
fn signals_read_back() {
    for s in [
        PeerSignal::Description { sdp_type: "offer".to_string(), sdp: "v=0\u{e9}".to_string() },
        PeerSignal::Candidate { candidate: String::new() },
    ] {
        assert_eq!(PeerSignal::decode(&s.encode().unwrap()), Some(s));
    }
    assert_eq!(PeerSignal::decode(&[1, 0, 0, 0, 1, 0, 0, 0, 0, 0, 0, 0, 0xff]), None);
}

#[test]
fn garbage_is_no_boot_blob() {
    assert_eq!(BootBlob::decode(&[1, 2, 3]), None);
    let blob = BootBlob { state: vec![1, 2], save: None, clock_unix_micros: 5 };
    let plain = blob.to_plain().unwrap();
    assert_eq!(plain, vec![2, 0, 0, 0, 0, 0, 0, 0, 1, 2, 0, 5, 0, 0, 0, 0, 0, 0, 0]);
    assert_eq!(BootBlob::from_plain(&plain), Some(blob));
    // Not compressed, so not a payload.
    assert_eq!(BootBlob::decode(&plain), None);
}

// ---------------------------------------------------------------------
// Boot payloads
// ---------------------------------------------------------------------

fn receive(blob: &[u8]) -> Option<Vec<u8>> {
    let mut r = BootReceiver::new();
    for m in boot_messages(blob) {
        if let Some(done) = r.on_message(&m).unwrap() {
            return Some(done);
        }
    }
    None
}

#[test]
fn boots_arrive_as_sent() {
    for n in [0usize, 1, 65_535, 65_536, 65_537, 200_000] {
        let blob: Vec<u8> = (0..n).map(|i| (i * 7 + n) as u8).collect();
        assert_eq!(receive(&blob), Some(blob));
    }
    assert_eq!(boot_messages(&[0; 65_537]).len(), 3);
}

fn boot_fails(msgs: Vec<PeerControl>) -> String {
    let mut r = BootReceiver::new();
    for m in msgs {
        match r.on_message(&m.encode().unwrap()) {
            Ok(_) => {},
            Err(e) => return e.message(1),
        }
    }
    panic!("nothing failed")
}

#[test]
fn broken_exchanges_are_told() {
    assert_eq!(boot_fails(vec![PeerControl::Quit]), "player 2 left before the session");
    assert_eq!(
        boot_fails(vec![PeerControl::Hello { net_version: 3 }]),
        "expected a boot payload, got Hello { net_version: 3 }"
    );
    assert_eq!(
        boot_fails(vec![PeerControl::BootChunk(vec![1, 20])]),
        "expected a boot payload, got BootChunk([1, 20])"
    );
    assert_eq!(
        boot_fails(vec![PeerControl::Boot { len: MAX_BOOT_SIZE as u32 + 1 }]),
        "boot payload implausibly large (4194305 bytes)"
    );
    assert_eq!(
        boot_fails(vec![PeerControl::Boot { len: 5 }, PeerControl::Boot { len: 6 }]),
        "expected a boot chunk, got Boot { len: 6 }"
    );
    assert_eq!(
        boot_fails(vec![PeerControl::Boot { len: 1 }, PeerControl::BootChunk(vec![1, 2])]),
        "boot payload overran its announced length"
    );
    let mut r = BootReceiver::new();
    assert_eq!(r.on_close().message(0), "control channel closed before boot payload");
    assert_eq!(r.on_message(&[9]).unwrap_err().message(0), "bad boot announcement");
    r.on_message(&PeerControl::Boot { len: 5 }.encode().unwrap()).unwrap();
    assert_eq!(r.on_close().message(0), "control channel closed mid boot payload");
    assert_eq!(r.on_message(&[9]).unwrap_err().message(0), "bad boot chunk");
    assert_eq!(BootError::TimedOut.message(0), "timed out exchanging boot payloads");
}

#[test]
fn boots_are_in_player_order() {
    let boots = collect_boots(1, 3, vec![9], vec![(2, vec![2, 2]), (0, vec![1])]);
    assert_eq!(boots, vec![vec![1], vec![9], vec![2, 2]]);
}

// ---------------------------------------------------------------------
// The mesh
// ---------------------------------------------------------------------

fn from_server(m: ServerMessage) -> MeshInput {
    MeshInput::Received { bytes: encode(&m), now: 1_000 }
}

fn signal_from(player: u32, s: PeerSignal) -> MeshInput {
    from_server(ServerMessage::signal(player, s.encode().unwrap()))
}

fn candidate(c: &str) -> PeerSignal {
    PeerSignal::Candidate { candidate: c.to_string() }
}

fn hello() -> Vec<u8> {
    PeerControl::Hello { net_version: NET_VERSION }.encode().unwrap()
}

fn failure(out: Vec<MeshOutput>) -> String {
    match out.as_slice() {
        [MeshOutput::Fail(e)] => e.message(),
        other => panic!("{other:?}"),
    }
}

#[test]
fn the_lower_player_offers() {
    let (_, out) = Mesh::start(1, 3);
    let connects: Vec<(u32, bool)> = out
        .iter()
        .map(|o| match o {
            MeshOutput::Connect { player, offer } => (*player, *offer),
            other => panic!("{other:?}"),
        })
        .collect();
    assert_eq!(connects, vec![(0, false), (2, true)]);
    let (m, out) = Mesh::start(0, 1);
    assert!(matches!(out.as_slice(), [MeshOutput::Up]));
    assert!(m.over);
}

#[test]
fn an_edge_comes_up() {
    let (mut m, _) = Mesh::start(0, 2);
    let out = m.step(MeshInput::OfferMade { player: 1, sdp: "sdp".to_string() });
    match out.as_slice() {
        [MeshOutput::Send(msg)] => {
            let want = PeerSignal::Description {
                sdp_type: "offer".to_string(),
                sdp: "sdp".to_string(),
            };
            assert_eq!(*msg, ClientMessage::signal(1, want.encode().unwrap()));
        },
        other => panic!("{other:?}"),
    }
    // Candidates that come early wait for the description.
    assert!(m.step(signal_from(1, candidate("a"))).is_empty());
    assert!(m.step(signal_from(1, candidate("b"))).is_empty());
    let answer =
        PeerSignal::Description { sdp_type: "answer".to_string(), sdp: "theirs".to_string() };
    let out = m.step(signal_from(1, answer));
    assert!(matches!(out.as_slice(), [MeshOutput::AcceptAnswer { player: 1, .. }]));
    let out = m.step(MeshInput::Accepted { player: 1 });
    let added: Vec<&str> = out
        .iter()
        .map(|o| match o {
            MeshOutput::AddCandidate { player: 1, candidate } => candidate.as_str(),
            other => panic!("{other:?}"),
        })
        .collect();
    assert_eq!(added, vec!["a", "b"]);
    assert_eq!(m.step(signal_from(1, candidate("c"))).len(), 1);
    let out = m.step(MeshInput::ControlOpen { player: 1 });
    match out.as_slice() {
        [MeshOutput::SendControl { player: 1, bytes }] => assert_eq!(*bytes, hello()),
        other => panic!("{other:?}"),
    }
    let out = m.step(MeshInput::Reply { player: 1, bytes: hello() });
    assert!(matches!(out.as_slice(), [MeshOutput::Up]));
    // It is over: nothing more is done.
    assert!(m.step(MeshInput::TimedOut).is_empty());
}

#[test]
fn offers_are_answered() {
    let (mut m, _) = Mesh::start(1, 2);
    let offer = PeerSignal::Description { sdp_type: "offer".to_string(), sdp: "x".to_string() };
    let out = m.step(signal_from(0, offer));
    assert!(matches!(out.as_slice(), [MeshOutput::AcceptOffer { player: 0, .. }]));
    let out = m.step(MeshInput::Answered { player: 0, sdp: "y".to_string() });
    match out.as_slice() {
        [MeshOutput::Send(msg)] => {
            let want =
                PeerSignal::Description { sdp_type: "answer".to_string(), sdp: "y".to_string() };
            assert_eq!(*msg, ClientMessage::signal(0, want.encode().unwrap()));
        },
        other => panic!("{other:?}"),
    }
}

#[test]
fn meshes_fail_for_a_reason() {
    let start = || Mesh::start(0, 3).0;
    let odd = PeerSignal::Description { sdp_type: "a\"b".to_string(), sdp: String::new() };
    assert_eq!(failure(start().step(signal_from(1, odd))), "unknown sdp type \"a\\\"b\"");
    assert_eq!(failure(start().step(MeshInput::TimedOut)), "timed out connecting to peers");
    assert_eq!(failure(start().step(MeshInput::SocketClosed)), "signaling server connection lost");
    assert_eq!(
        failure(start().step(MeshInput::Peer { player: 1, event: PeerEvent::Failed })),
        "connection to player 2 failed"
    );
    assert_eq!(
        failure(start().step(MeshInput::ControlClosed { opened: false })),
        "control channel closed before opening"
    );
    assert_eq!(
        failure(start().step(MeshInput::ControlClosed { opened: true })),
        "control channel closed during handshake"
    );
    let reply = |c: PeerControl| MeshInput::Reply { player: 1, bytes: c.encode().unwrap() };
    assert_eq!(
        failure(start().step(reply(PeerControl::Hello { net_version: 2 }))),
        "peer runs incompatible net protocol 2 (we run 3)"
    );
    assert_eq!(failure(start().step(reply(PeerControl::Quit))), "expected hello, got Quit");
    assert_eq!(
        failure(start().step(MeshInput::Reply { player: 1, bytes: vec![] })),
        "bad handshake message"
    );
    assert_eq!(
        failure(start().step(MeshInput::Reply { player: 7, bytes: hello() })),
        "handshake for unknown peer"
    );
}

#[test]
fn the_departed_have_their_grace() {
    let (mut m, _) = Mesh::start(0, 3);
    assert!(m.step(from_server(ServerMessage::peer_left(1))).is_empty());
    // The clock started once, at the first report.
    let again =
        MeshInput::Received { bytes: encode(&ServerMessage::peer_left(1)), now: 9_000 };
    assert!(m.step(again).is_empty());
    assert!(m.step(MeshInput::Quiet { now: 1_000 + DEPARTED_GRACE_MS }).is_empty());
    assert_eq!(
        failure(m.step(MeshInput::Quiet { now: 1_001 + DEPARTED_GRACE_MS })),
        "player 2 left during connection setup"
    );
    assert_eq!(MeshError::Departed(4).message(), "player 5 left during connection setup");

    // A handshake in time stops it.
    let (mut m, _) = Mesh::start(0, 3);
    m.step(from_server(ServerMessage::peer_left(1)));
    assert!(m.step(MeshInput::Reply { player: 1, bytes: hello() }).is_empty());
    m.step(from_server(ServerMessage::peer_left(1)));
    assert!(m.step(MeshInput::Quiet { now: 99_000 }).is_empty());
}

#[test]
fn what_the_mesh_has_no_use_for_is_set_aside() {
    let (mut m, _) = Mesh::start(0, 2);
    let out = m.step(from_server(ServerMessage::error(ErrorKind::Kicked, "")));
    assert!(matches!(out.as_slice(), [MeshOutput::SetAside(server_message::Msg::Error(_))]));
    assert!(m.step(MeshInput::Received { bytes: vec![0xff], now: 0 }).is_empty());
    assert!(m.step(signal_from(5, candidate("x"))).is_empty());
    assert_eq!(local_candidate(String::new()), None);
    assert_eq!(
        local_candidate("c".to_string()),
        Some(PeerEvent::Candidate("c".to_string()))
    );
    let out = m.step(MeshInput::Peer {
        player: 1,
        event: PeerEvent::Candidate("c".to_string()),
    });
    match out.as_slice() {
        [MeshOutput::Send(msg)] => {
            assert_eq!(*msg, ClientMessage::signal(1, candidate("c").encode().unwrap()));
        },
        other => panic!("{other:?}"),
    }
}

// ---------------------------------------------------------------------
// The lobby
// ---------------------------------------------------------------------

fn lobby(wireless: bool) -> (Lobby, ClientMessage) {
    Lobby::open(&LobbyArgs {
        server_url: "ws://x".to_string(),
        nick: "me".to_string(),
        rom_crc32: 5,
        rom_title: "T".to_string(),
        wireless,
        mode: LobbyMode::Create,
    })
}

fn told(m: ServerMessage) -> LobbyInput {
    LobbyInput::Received(encode(&m))
}

fn players(n: u32) -> Vec<StartPlayer> {
    (0..n).map(|i| StartPlayer { nick: format!("p{i}"), rom_crc32: i }).collect()
}

#[test]
fn a_lobby_opens_its_room() {
    let (_, m) = lobby(true);
    assert_eq!(m, ClientMessage::create_room("me", 5, "T", true));
    let (_, m) = Lobby::open(&LobbyArgs {
        server_url: "ws://x".to_string(),
        nick: "me".to_string(),
        rom_crc32: 5,
        rom_title: "T".to_string(),
        wireless: false,
        mode: LobbyMode::Join { code: " ab2c3d".to_string() },
    });
    assert!(decode::<ClientMessage>(&encode(&m)).is_ok());
}

#[test]
fn a_merge_runs_its_course() {
    let (mut l, _) = lobby(true);
    let out = l.step(told(ServerMessage::room_created("AB2C3D")));
    assert!(out.iter().any(|o| matches!(o,
        LobbyOutput::Tell(LobbyEvent::Joined { code }) if code == "AB2C3D")));
    let out = l.step(told(ServerMessage::roster(
        vec![PlayerInfo {
            nick: "me".to_string(),
            ready: true,
            rom_crc32: 5,
            rom_title: "T".to_string(),
            seat: 0,
        }],
        0,
        true,
    )));
    assert!(matches!(out.as_slice(), [LobbyOutput::Tell(LobbyEvent::Roster { .. })]));
    let out = l.step(told(ServerMessage::starting(players(2), 1)));
    assert!(out.iter().any(|o| matches!(o, LobbyOutput::Tell(LobbyEvent::Starting))));
    assert!(out.iter().any(|o| matches!(o,
        LobbyOutput::Mesh { local_player: 1, num_players: 2 })));
    l.step(LobbyInput::MeshReady);
    let out = l.step(LobbyInput::Command(Some(LobbyCommand::Boot(vec![1, 2]))));
    assert!(out.iter().any(|o| matches!(o, LobbyOutput::Exchange(b) if *b == vec![1, 2])));
    let out = l.step(LobbyInput::Exchanged(vec![vec![3], vec![1, 2]]));
    match out.first() {
        Some(LobbyOutput::Tell(LobbyEvent::SessionReady(b))) => {
            assert_eq!(b.local_player, 1);
            assert_eq!(b.boots, vec![vec![3], vec![1, 2]]);
            assert_eq!(b.players, players(2));
        },
        other => panic!("{other:?}"),
    }
    // The room stands: the next merge can come.
    assert!(matches!(l.phase, LobbyPhase::Idle));
}

#[test]
fn wireless_merges_retry() {
    let (mut l, _) = lobby(true);
    l.step(told(ServerMessage::starting(players(2), 0)));
    let out = l.step(LobbyInput::MergeFailed("no route".to_string()));
    match out.as_slice() {
        [LobbyOutput::Tell(LobbyEvent::MergeFailed(t)), LobbyOutput::ArmRetry(3_000)] => {
            assert_eq!(t, "Couldn't link up: no route");
        },
        other => panic!("{other:?}"),
    }
    let out = l.step(LobbyInput::RetryFired);
    assert!(matches!(out.first(),
        Some(LobbyOutput::Send(m)) if *m == ClientMessage::set_ready(false)));
}

#[test]
fn leaving_leaves() {
    let (mut l, _) = lobby(false);
    let out = l.step(LobbyInput::Command(Some(LobbyCommand::Leave)));
    assert!(out.iter().any(|o| matches!(o,
        LobbyOutput::Send(m) if *m == ClientMessage::leave())));
    assert!(out.iter().any(|o| matches!(o, LobbyOutput::Close)));
    assert!(l.step(LobbyInput::SocketClosed).is_empty());
}

#[test]
fn lost_servers_are_fatal() {
    let (mut l, _) = lobby(false);
    let out = l.step(LobbyInput::SocketClosed);
    assert!(out.iter().any(|o| matches!(o,
        LobbyOutput::Tell(LobbyEvent::Fatal(t)) if t == "signaling connection closed")));
}

#[test]
fn kicks_are_told() {
    let (mut l, _) = lobby(false);
    let out = l.step(told(ServerMessage::error(ErrorKind::Kicked, "")));
    assert!(out.iter().any(|o| matches!(o, LobbyOutput::Tell(LobbyEvent::Kicked))));
    assert!(!error_text(ErrorKind::RoomFull).is_empty());
}

#[test]
fn dropped_sessions_dance() {
    let (mut l, _) = lobby(true);
    let dropped = || LobbyInput::Command(Some(LobbyCommand::Dropped));
    assert!(matches!(l.step(dropped()).as_slice(), [LobbyOutput::ArmDance(2_500)]));
    let out = l.step(LobbyInput::DanceFired);
    assert!(matches!(out.as_slice(),
        [LobbyOutput::Send(m)] if *m == ClientMessage::set_ready(false)));
    assert!(l.step(LobbyInput::DanceFired).is_empty());
    // A merge that was already on its way supersedes the drop.
    l.step(dropped());
    l.step(told(ServerMessage::starting(players(2), 0)));
    l.step(LobbyInput::MeshReady);
    l.step(LobbyInput::Command(Some(LobbyCommand::Boot(vec![]))));
    l.step(LobbyInput::Exchanged(vec![]));
    assert!(l.step(LobbyInput::DanceFired).is_empty());
    let (mut l, _) = lobby(false);
    assert!(l.step(dropped()).is_empty());
}

#[test]
fn strays_are_replayed() {
    let (mut l, _) = lobby(false);
    l.step(told(ServerMessage::starting(players(2), 0)));
    let joined = ServerMessage::room_joined("AB2C3D").msg.unwrap();
    assert!(l.step(LobbyInput::Stray(joined)).is_empty());
    let out = l.step(LobbyInput::MergeFailed("no route".to_string()));
    assert!(matches!(out.as_slice(),
        [LobbyOutput::Tell(LobbyEvent::MergeFailed(_)),
         LobbyOutput::Tell(LobbyEvent::Joined { code })] if code == "AB2C3D"));
    l.step(told(ServerMessage::starting(players(2), 0)));
    let kicked = ServerMessage::error(ErrorKind::Kicked, "").msg.unwrap();
    l.step(LobbyInput::Stray(kicked));
    let out = l.step(LobbyInput::MergeFailed("no route".to_string()));
    assert!(matches!(out.as_slice(),
        [LobbyOutput::Tell(LobbyEvent::Kicked), LobbyOutput::Close]));
}

#[test]
fn server_errors_are_put_in_words() {
    let fatal = vec![
        (ErrorKind::ProtocolVersionMismatch, "This build is out of date — reload the app."),
        (ErrorKind::RoomNotFound, "No room with that code."),
        (ErrorKind::RoomFull, "That room is full."),
        (ErrorKind::RoomAlreadyStarted, "That room already started."),
    ];
    for (kind, text) in fatal {
        let (mut l, _) = lobby(false);
        let out = l.step(told(ServerMessage::error(kind, "")));
        assert!(matches!(out.as_slice(),
            [LobbyOutput::Tell(LobbyEvent::Fatal(t)), LobbyOutput::Close] if t == text));
    }
    let others = vec![
        (ErrorKind::NotHost, "Only the room's creator can do that."),
        (ErrorKind::NotEveryoneReady, "The room can't link up yet."),
        (ErrorKind::Malformed, "The server rejected that."),
        (ErrorKind::Internal, "The server rejected that."),
        (ErrorKind::Unspecified, "The server rejected that."),
    ];
    for (kind, text) in others {
        let (mut l, _) = lobby(false);
        let out = l.step(told(ServerMessage::error(kind, "")));
        assert!(matches!(out.as_slice(),
            [LobbyOutput::Tell(LobbyEvent::Error(t))] if t == text));
    }
    assert_eq!(error_text(ErrorKind::Kicked), "The room's creator removed you.");
}

#[test]
fn the_other_peripheral_bows_out() {
    let (mut l, _) = lobby(false);
    let out = l.step(told(ServerMessage::roster(vec![], 0, true)));
    assert!(matches!(out.as_slice(),
        [LobbyOutput::Tell(LobbyEvent::Fatal(t)), LobbyOutput::Close]
            if t == "This room plays over the wireless adapter — relaunch the game with it to join."));
}

#[test]
fn runs_of_inputs_are_bounded() {
    assert_eq!(Proto::max_run(), HORIZON as usize);
}

#[test]
fn a_dropped_connection_may_heal() {
    assert_eq!(state_event(ConnectionState::Disconnected), None);
    assert_eq!(state_event(ConnectionState::Connected), None);
    assert_eq!(state_event(ConnectionState::Failed), Some(PeerEvent::Failed));
    assert_eq!(state_event(ConnectionState::Closed), Some(PeerEvent::Failed));
}
