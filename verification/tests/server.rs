use gbaroll::server::{
    code_of, default_ice_servers, ice_servers_from, random_code, sanitize_nick, Frame, Reply,
    Request, Rooms,
};
use gbaroll::server::wire::{read_request, write_reply, Packet};
use gbaroll::signaling::{
    decode, encode, ClientMessage, ErrorKind, ServerMessage, PROTOCOL_VERSION, ROOM_CODE_ALPHABET,
};

fn create(nick: &str) -> Request {
    Request::CreateRoom {
        protocol_version: PROTOCOL_VERSION,
        nick: nick.to_string(),
        rom_crc32: 1,
        rom_title: "A".to_string(),
    }
}

fn join(code: &str, nick: &str) -> Request {
    Request::JoinRoom {
        protocol_version: PROTOCOL_VERSION,
        code: code.to_string(),
        nick: nick.to_string(),
        rom_crc32: 2,
        rom_title: "B".to_string(),
    }
}

/// A table under test: what each connection is in.
struct Table {
    rooms: Rooms,
    members: Vec<Option<String>>,
}

impl Table {
    fn new() -> Table {
        Table { rooms: Rooms::new(1024), members: vec![None; 8] }
    }

    fn ask(&mut self, conn: usize, request: Request) -> Vec<(u64, Reply)> {
        self.rooms
            .handle_message(conn as u64, request, &mut self.members[conn], "AB2C3D", 77)
            .0
    }

    fn error(&mut self, conn: usize, request: Request) -> ErrorKind {
        match self.ask(conn, request).as_slice() {
            [(c, Reply::Error { kind, .. })] => {
                assert_eq!(*c, conn as u64);
                *kind
            },
            other => panic!("{other:?}"),
        }
    }
}

fn ready(save: Option<Vec<u8>>) -> Request {
    Request::SetReady { ready: true, save }
}

#[test]
fn rooms_are_created_and_joined() {
    let mut t = Table::new();
    let out = t.ask(0, create("host"));
    assert_eq!(out[0], (0, Reply::RoomCreated { code: "AB2C3D".to_string() }));
    assert!(t.rooms.contains("AB2C3D"));
    let out = t.ask(1, join(" ab2c3d ", "guest"));
    assert_eq!(out[0], (1, Reply::RoomJoined { code: "AB2C3D".to_string() }));
    // Everyone is told of everyone.
    let rosters: Vec<(u64, u8, usize)> = out[1..]
        .iter()
        .map(|(c, r)| match r {
            Reply::Roster { players, your_idx } => (*c, *your_idx, players.len()),
            other => panic!("{other:?}"),
        })
        .collect();
    assert_eq!(rosters, vec![(0, 0, 2), (1, 1, 2)]);
}

#[test]
fn requests_are_refused_with_their_kind() {
    let mut t = Table::new();
    assert_eq!(t.error(0, join("ZZZZZZ", "x")), ErrorKind::RoomNotFound);
    t.ask(0, create("host"));
    assert_eq!(t.error(0, create("again")), ErrorKind::Malformed);
    t.ask(1, join("AB2C3D", "a"));
    assert_eq!(t.error(1, Request::Start), ErrorKind::NotHost);
    assert_eq!(t.error(0, Request::Start), ErrorKind::NotEveryoneReady);
    t.ask(2, join("AB2C3D", "b"));
    t.ask(3, join("AB2C3D", "c"));
    assert_eq!(t.error(4, join("AB2C3D", "d")), ErrorKind::RoomFull);
    let old = Request::CreateRoom {
        protocol_version: PROTOCOL_VERSION + 1,
        nick: "x".to_string(),
        rom_crc32: 0,
        rom_title: String::new(),
    };
    let (out, open) = t.rooms.handle_message(5, old, &mut t.members[5], "AB2C3E", 0);
    assert!(!open);
    assert!(matches!(out.as_slice(),
        [(5, Reply::Error { kind: ErrorKind::ProtocolVersionMismatch, .. })]));
}

#[test]
fn rooms_start_by_agreement() {
    let mut t = Table::new();
    t.ask(0, create("host"));
    t.ask(1, join("AB2C3D", "guest"));
    t.ask(1, ready(Some(vec![1, 2])));
    t.ask(0, ready(None));
    let out = t.ask(0, Request::Start);
    let started: Vec<(u64, u64, u8, usize)> = out
        .iter()
        .map(|(c, r)| match r {
            Reply::Starting { clock_unix_micros, players, your_idx } => {
                (*c, *clock_unix_micros, *your_idx, players.len())
            },
            other => panic!("{other:?}"),
        })
        .collect();
    assert_eq!(started, vec![(0, 77, 0, 2), (1, 77, 1, 2)]);
    // A started room is closed to newcomers.
    assert_eq!(t.error(2, join("AB2C3D", "late")), ErrorKind::RoomAlreadyStarted);
}

#[test]
fn entering_and_leaving_reset_ready() {
    let mut t = Table::new();
    t.ask(0, create("host"));
    t.ask(1, join("AB2C3D", "a"));
    t.ask(1, ready(None));
    t.ask(2, join("AB2C3D", "b"));
    assert_eq!(t.error(0, Request::Start), ErrorKind::NotEveryoneReady);
    t.ask(1, ready(None));
    let member = t.members[2].take();
    let out = t.rooms.leave_room(2, member);
    assert!(out.iter().any(|(_, r)| matches!(r,
        Reply::Roster { players, .. } if players.iter().all(|p| !p.ready))));
}

#[test]
fn the_last_to_leave_closes_the_room() {
    let mut t = Table::new();
    t.ask(0, create("host"));
    let member = t.members[0].take();
    t.rooms.leave_room(0, member);
    assert!(!t.rooms.contains("AB2C3D"));
}

#[test]
fn signals_are_relayed() {
    let mut t = Table::new();
    t.ask(0, create("host"));
    t.ask(1, join("AB2C3D", "a"));
    t.ask(0, ready(None));
    t.ask(1, ready(None));
    t.ask(0, Request::Start);
    let out = t.ask(1, Request::Signal { to: 0, payload: vec![5] });
    assert_eq!(out, vec![(0, Reply::Signal { from: 1, payload: vec![5] })]);
}

#[test]
fn seats_are_frozen_once_started() {
    let mut t = Table::new();
    t.ask(0, create("host"));
    t.ask(1, join("AB2C3D", "a"));
    t.ask(2, join("AB2C3D", "b"));
    for conn in 0..3 {
        t.ask(conn, ready(None));
    }
    t.ask(0, Request::Start);
    let member = t.members[1].take();
    let out = t.rooms.leave_room(1, member);
    assert_eq!(
        out,
        vec![
            (0, Reply::PeerLeft { player_idx: 1 }),
            (2, Reply::PeerLeft { player_idx: 1 }),
        ]
    );
    // The one in the last seat is still the third player.
    let out = t.ask(0, Request::Signal { to: 2, payload: vec![6] });
    assert_eq!(out, vec![(2, Reply::Signal { from: 0, payload: vec![6] })]);
    let out = t.ask(2, Request::Signal { to: 0, payload: vec![7] });
    assert_eq!(out, vec![(0, Reply::Signal { from: 2, payload: vec![7] })]);
    // Nothing reaches the empty seat.
    assert_eq!(t.ask(0, Request::Signal { to: 1, payload: vec![8] }), vec![]);
    let out = t.ask(2, Request::Chat { text: "hi".to_string() });
    assert_eq!(out.iter().map(|(c, _)| *c).collect::<Vec<u64>>(), vec![0, 2]);
    // The room lives until everybody is gone.
    for conn in [0, 2] {
        assert!(t.rooms.contains("AB2C3D"));
        let member = t.members[conn].take();
        t.rooms.leave_room(conn as u64, member);
    }
    assert!(!t.rooms.contains("AB2C3D"));
}

#[test]
fn chat_reaches_everyone() {
    let mut t = Table::new();
    t.ask(0, create("host"));
    t.ask(1, join("AB2C3D", "a"));
    let out = t.ask(1, Request::Chat { text: "hi".to_string() });
    assert_eq!(out.len(), 2);
    assert!(out.iter().all(|(_, r)| *r
        == Reply::Chat { from: 1, nick: "a".to_string(), text: "hi".to_string() }));
}

#[test]
fn frames_that_are_no_requests() {
    let mut t = Table::new();
    let mut frame = |f: Frame| t.rooms.handle_frame(0, f, &mut t.members[0], "AB2C3D", 0);
    let (out, open) = frame(Frame::Binary(None));
    assert!(open);
    assert!(matches!(out.as_slice(),
        [(0, Reply::Error { kind: ErrorKind::Malformed, message })]
            if message == "undecodable message"));
    let (out, _) = frame(Frame::Other);
    assert!(matches!(out.as_slice(),
        [(0, Reply::Error { message, .. })] if message == "expected a binary message"));
    let (out, _) = frame(Frame::Text("hello".to_string()));
    assert!(matches!(out.as_slice(),
        [(0, Reply::Error { message, .. })] if message == "expected a binary message"));
    assert_eq!(frame(Frame::Text("ping".to_string())), (vec![(0, Reply::Pong)], true));
    assert_eq!(frame(Frame::Ping), (vec![], true));
    assert_eq!(frame(Frame::Pong), (vec![], true));
    assert_eq!(frame(Frame::Close), (vec![], false));
}

#[test]
fn nicks_are_tidied() {
    assert_eq!(sanitize_nick("  bob "), "bob");
    assert_eq!(sanitize_nick(&"x".repeat(99)).len(), 24);
}

#[test]
fn codes_are_drawn_from_the_alphabet() {
    assert_eq!(code_of(&[0, 1, 2, 3, 4, 30]), "23456Z");
    let mut seen = std::collections::HashSet::new();
    for _ in 0..50 {
        let code = random_code();
        assert_eq!(code.len(), 6);
        assert!(code.chars().all(|c| ROOM_CODE_ALPHABET.contains(&c)));
        seen.insert(code);
    }
    assert!(seen.len() > 1);
    let mut t = Table::new();
    t.ask(0, create("host"));
    let fresh = t.rooms.fresh_code(100).unwrap();
    assert_ne!(fresh, "AB2C3D");
    assert_eq!(t.rooms.fresh_code(0), None);
}

#[test]
fn ice_servers_are_configured() {
    assert_eq!(default_ice_servers().len(), 1);
    let turn = vec!["turn:x,user,pass".to_string()];
    let servers = ice_servers_from(vec!["stun:y".to_string()], &turn).unwrap();
    assert_eq!(servers.len(), 2);
    assert_eq!(servers[0].urls, vec!["stun:y".to_string()]);
    assert_eq!(servers[1].username, Some("user".to_string()));
    assert_eq!(servers[1].credential, Some("pass".to_string()));
    assert!(ice_servers_from(vec![], &vec!["turn:x".to_string()]).is_none());
}

#[test]
fn free_codes_are_drawn_at_once() {
    let mut t = Table::new();
    // Nothing is in use: one draw is enough.
    let code = t.rooms.fresh_code(1).unwrap();
    assert_eq!(code.len(), 6);
    assert!(t.rooms.fresh_code(0).is_none());
    t.ask(0, create("host"));
    assert_eq!(t.rooms.free_code("AB2C3D".to_string()), None);
    assert_eq!(t.rooms.free_code("AB2C3E".to_string()), Some("AB2C3E".to_string()));
}

#[test]
fn requests_come_off_the_wire() {
    let m = ClientMessage::create_room("host", 1, "A", false);
    assert_eq!(read_request(&encode(&m)), Some(create("host")));
    let m = ClientMessage::join_room("AB2C3D", "guest", 2, "B");
    assert_eq!(read_request(&encode(&m)), Some(join("AB2C3D", "guest")));
    let m = ClientMessage::set_ready(true);
    assert_eq!(read_request(&encode(&m)), Some(ready(None)));
    assert_eq!(read_request(&encode(&ClientMessage::start())), Some(Request::Start));
    let m = ClientMessage::signal(2, vec![1]);
    assert_eq!(read_request(&encode(&m)), Some(Request::Signal { to: 2, payload: vec![1] }));
    let m = ClientMessage::signal(70_000, vec![]);
    assert_eq!(read_request(&encode(&m)), Some(Request::Signal { to: 255, payload: vec![] }));
    assert_eq!(read_request(&encode(&ClientMessage::leave())), Some(Request::Leave));
    assert_eq!(read_request(&encode(&ClientMessage::kick_player(1))), None);
    assert_eq!(read_request(&[]), None);
    assert_eq!(read_request(&[0xff]), None);
}

#[test]
fn replies_go_onto_the_wire() {
    let sent = |r: Reply| match write_reply(r) {
        Some(Packet::Binary(b)) => decode::<ServerMessage>(&b).unwrap(),
        other => panic!("{other:?}"),
    };
    assert_eq!(sent(Reply::PeerLeft { player_idx: 2 }), ServerMessage::peer_left(2));
    assert_eq!(
        sent(Reply::Signal { from: 1, payload: vec![5] }),
        ServerMessage::signal(1, vec![5])
    );
    assert_eq!(
        sent(Reply::Error { kind: ErrorKind::NotHost, message: "no".to_string() }),
        ServerMessage::error(ErrorKind::NotHost, "no")
    );
    let mut t = Table::new();
    let out = t.ask(0, create("host"));
    assert_eq!(sent(out[0].1.clone()), ServerMessage::room_created("AB2C3D"));
    assert!(matches!(write_reply(out[1].1.clone()), Some(Packet::Binary(_))));
    assert_eq!(write_reply(Reply::Pong), Some(Packet::Text("pong".to_string())));
    let chat = Reply::Chat { from: 0, nick: String::new(), text: String::new() };
    assert_eq!(write_reply(chat), None);
}
