//! The signaling server's rooms: rendezvous and opaque signal relay for 2 to 4
//! player sessions. Connections are told apart by number; what a request
//! sends out is a list of replies, each for one connection.
use vstd::prelude::*;
use crate::signaling::{
    normalize_room_code, normalized_code, ErrorKind, IceServer, IceServerView, PROTOCOL_VERSION,
    ROOM_CODE_ALPHABET, ROOM_CODE_LEN, is_room_code,
};
use crate::text::{chars_of, same_text, text_from, trim, trimmed};

use crate::signaling::messages::{ice_servers_view, texts_view};
use rand::Rng;

pub mod laws;
pub mod outcomes;
pub mod wire;

verus! {

/// Most players a room holds.
pub const MAX_PLAYERS: usize = 4;

/// Longest nick kept, in characters.
pub const MAX_NICK: usize = 24;

/// Longest chat line relayed, in characters.
pub const MAX_CHAT: usize = 512;

// ---------------------------------------------------------------------
// What goes over the wire
// ---------------------------------------------------------------------

/// What a client asks.
#[derive(Debug, Clone, PartialEq, Eq)]
pub enum Request {
    CreateRoom { protocol_version: u32, nick: String, rom_crc32: u32, rom_title: String },
    JoinRoom {
        protocol_version: u32,
        code: String,
        nick: String,
        rom_crc32: u32,
        rom_title: String,
    },
    SetReady { ready: bool, save: Option<Vec<u8>> },
    Chat { text: String },
    Start,
    Signal { to: u8, payload: Vec<u8> },
    Leave,
}

/// One member of a room, as the roster shows them.
#[derive(Debug, Clone, PartialEq, Eq)]
pub struct Member {
    pub nick: String,
    pub ready: bool,
    pub rom_crc32: u32,
    pub rom_title: String,
}

/// One member of a starting session.
#[derive(Debug, Clone, PartialEq, Eq)]
pub struct Starter {
    pub nick: String,
    pub rom_crc32: u32,
    pub save: Option<Vec<u8>>,
}

/// What the server answers.
#[derive(Debug, Clone, PartialEq, Eq)]
pub enum Reply {
    RoomCreated { code: String },
    RoomJoined { code: String },
    Roster { players: Vec<Member>, your_idx: u8 },
    Chat { from: u8, nick: String, text: String },
    Starting { clock_unix_micros: u64, players: Vec<Starter>, your_idx: u8 },
    Signal { from: u8, payload: Vec<u8> },
    PeerLeft { player_idx: u8 },
    Error { kind: ErrorKind, message: String },
    /// The answer to a keepalive: a text frame, no message.
    Pong,
}

/// What a blob holds, where there is one.
pub open spec fn blob_view(b: Option<Vec<u8>>) -> Option<Seq<u8>> {
    match b {
        Some(v) => Some(v@),
        None => None,
    }
}

/// What a [`Request`] says.
pub enum RequestView {
    CreateRoom { protocol_version: u32, nick: Seq<char>, rom_crc32: u32, rom_title: Seq<char> },
    JoinRoom {
        protocol_version: u32,
        code: Seq<char>,
        nick: Seq<char>,
        rom_crc32: u32,
        rom_title: Seq<char>,
    },
    SetReady { ready: bool, save: Option<Seq<u8>> },
    Chat { text: Seq<char> },
    Start,
    Signal { to: u8, payload: Seq<u8> },
    Leave,
}

impl View for Request {
    type V = RequestView;

    open spec fn view(&self) -> RequestView {
        match *self {
            Request::CreateRoom { protocol_version, nick, rom_crc32, rom_title } => {
                RequestView::CreateRoom {
                    protocol_version,
                    nick: nick@,
                    rom_crc32,
                    rom_title: rom_title@,
                }
            },
            Request::JoinRoom { protocol_version, code, nick, rom_crc32, rom_title } => {
                RequestView::JoinRoom {
                    protocol_version,
                    code: code@,
                    nick: nick@,
                    rom_crc32,
                    rom_title: rom_title@,
                }
            },
            Request::SetReady { ready, save } => RequestView::SetReady {
                ready,
                save: blob_view(save),
            },
            Request::Chat { text } => RequestView::Chat { text: text@ },
            Request::Start => RequestView::Start,
            Request::Signal { to, payload } => RequestView::Signal { to, payload: payload@ },
            Request::Leave => RequestView::Leave,
        }
    }
}

/// What a [`Member`] says.
#[verifier::ext_equal]
pub struct MemberView {
    pub nick: Seq<char>,
    pub ready: bool,
    pub rom_crc32: u32,
    pub rom_title: Seq<char>,
}

impl View for Member {
    type V = MemberView;

    open spec fn view(&self) -> MemberView {
        MemberView {
            nick: self.nick@,
            ready: self.ready,
            rom_crc32: self.rom_crc32,
            rom_title: self.rom_title@,
        }
    }
}

/// What a [`Starter`] says.
#[verifier::ext_equal]
pub struct StarterView {
    pub nick: Seq<char>,
    pub rom_crc32: u32,
    pub save: Option<Seq<u8>>,
}

impl View for Starter {
    type V = StarterView;

    open spec fn view(&self) -> StarterView {
        StarterView { nick: self.nick@, rom_crc32: self.rom_crc32, save: blob_view(self.save) }
    }
}

/// What a [`Reply`] says.
#[verifier::ext_equal]
pub enum ReplyView {
    RoomCreated { code: Seq<char> },
    RoomJoined { code: Seq<char> },
    Roster { players: Seq<MemberView>, your_idx: u8 },
    Chat { from: u8, nick: Seq<char>, text: Seq<char> },
    Starting { clock_unix_micros: u64, players: Seq<StarterView>, your_idx: u8 },
    Signal { from: u8, payload: Seq<u8> },
    PeerLeft { player_idx: u8 },
    Error { kind: ErrorKind, message: Seq<char> },
    Pong,
}

/// What a list of members says.
pub open spec fn members_view(s: Seq<Member>) -> Seq<MemberView> {
    s.map_values(|m: Member| m@)
}

/// What a list of starters says.
pub open spec fn starters_view(s: Seq<Starter>) -> Seq<StarterView> {
    s.map_values(|m: Starter| m@)
}

impl View for Reply {
    type V = ReplyView;

    open spec fn view(&self) -> ReplyView {
        match *self {
            Reply::RoomCreated { code } => ReplyView::RoomCreated { code: code@ },
            Reply::RoomJoined { code } => ReplyView::RoomJoined { code: code@ },
            Reply::Roster { players, your_idx } => ReplyView::Roster {
                players: members_view(players@),
                your_idx,
            },
            Reply::Chat { from, nick, text } => ReplyView::Chat {
                from,
                nick: nick@,
                text: text@,
            },
            Reply::Starting { clock_unix_micros, players, your_idx } => ReplyView::Starting {
                clock_unix_micros,
                players: starters_view(players@),
                your_idx,
            },
            Reply::Signal { from, payload } => ReplyView::Signal { from, payload: payload@ },
            Reply::PeerLeft { player_idx } => ReplyView::PeerLeft { player_idx },
            Reply::Error { kind, message } => ReplyView::Error { kind, message: message@ },
            Reply::Pong => ReplyView::Pong,
        }
    }
}

/// What a list of replies says: who gets what, in order.
pub open spec fn replies_view(s: Seq<(u64, Reply)>) -> Seq<(u64, ReplyView)> {
    s.map_values(|r: (u64, Reply)| (r.0, r.1@))
}

// ---------------------------------------------------------------------
// Rooms
// ---------------------------------------------------------------------

/// One player in a room.
#[derive(Debug)]
pub struct Player {
    pub nick: String,
    pub ready: bool,
    pub rom_crc32: u32,
    pub rom_title: String,
    pub save: Option<Vec<u8>>,
    /// The connection they play over. Lobby departures compact positions
    /// downward, so a player is known by this and nothing else.
    pub conn: u64,
    /// They left after the start. Positions are frozen by then, so the seat
    /// stays.
    pub gone: bool,
}

#[derive(Debug)]
pub struct Room {
    pub code: String,
    pub started: bool,
    pub players: Vec<Player>,
}

/// What a [`Player`] says.
#[verifier::ext_equal]
pub struct PlayerView {
    pub nick: Seq<char>,
    pub ready: bool,
    pub rom_crc32: u32,
    pub rom_title: Seq<char>,
    pub save: Option<Seq<u8>>,
    pub conn: u64,
    pub gone: bool,
}

/// What a [`Room`] says.
#[verifier::ext_equal]
pub struct RoomView {
    pub started: bool,
    pub players: Seq<PlayerView>,
}

impl View for Player {
    type V = PlayerView;

    open spec fn view(&self) -> PlayerView {
        PlayerView {
            nick: self.nick@,
            ready: self.ready,
            rom_crc32: self.rom_crc32,
            rom_title: self.rom_title@,
            save: blob_view(self.save),
            conn: self.conn,
            gone: self.gone,
        }
    }
}

/// What a list of players says.
pub open spec fn players_view(s: Seq<Player>) -> Seq<PlayerView> {
    s.map_values(|p: Player| p@)
}

impl View for Room {
    type V = RoomView;

    open spec fn view(&self) -> RoomView {
        RoomView { started: self.started, players: players_view(self.players@) }
    }
}

/// The roster line of a player.
pub open spec fn member_of(p: PlayerView) -> MemberView {
    MemberView { nick: p.nick, ready: p.ready, rom_crc32: p.rom_crc32, rom_title: p.rom_title }
}

/// Everyone's roster line.
pub open spec fn roster_of(players: Seq<PlayerView>) -> Seq<MemberView> {
    players.map_values(|p: PlayerView| member_of(p))
}

/// Each member's copy of the roster, stamped with their own position.
pub open spec fn rosters(players: Seq<PlayerView>) -> Seq<(u64, ReplyView)> {
    Seq::new(
        players.len(),
        |i: int|
            (
                players[i].conn,
                ReplyView::Roster { players: roster_of(players), your_idx: i as u8 },
            ),
    )
}

/// Those who are still there.
pub open spec fn present(players: Seq<PlayerView>) -> Seq<PlayerView> {
    players.filter(|p: PlayerView| !p.gone)
}

/// Whether nobody is there any more.
pub open spec fn deserted(players: Seq<PlayerView>) -> bool {
    forall|i: int| 0 <= i < players.len() ==> (#[trigger] players[i]).gone
}

/// One reply, for everyone who is still there.
pub open spec fn to_all(players: Seq<PlayerView>, reply: ReplyView) -> Seq<(u64, ReplyView)> {
    present(players).map_values(|p: PlayerView| (p.conn, reply))
}

/// One seat more gets the reply or not.
proof fn lemma_to_all_next(players: Seq<PlayerView>, reply: ReplyView, i: int)
    requires
        0 <= i < players.len(),
    ensures
        to_all(players.take(i + 1), reply) == if players[i].gone {
            to_all(players.take(i), reply)
        } else {
            to_all(players.take(i), reply).push((players[i].conn, reply))
        },
{
    reveal(Seq::filter);
    let next = players.take(i + 1);
    assert(next.drop_last() =~= players.take(i));
    assert(next.last() == players[i]);
    if !players[i].gone {
        assert(to_all(next, reply) =~= to_all(players.take(i), reply).push(
            (players[i].conn, reply),
        ));
    }
}

/// A player with nothing agreed to.
pub open spec fn unready(p: PlayerView) -> PlayerView {
    PlayerView { ready: false, save: None, ..p }
}

/// Everyone with nothing agreed to.
pub open spec fn all_unready(players: Seq<PlayerView>) -> Seq<PlayerView> {
    players.map_values(|p: PlayerView| unready(p))
}

/// The position of the first player on a connection who is still there; the
/// number of players where there is none.
pub open spec fn seat_of(players: Seq<PlayerView>, conn: u64) -> nat
    decreases players.len(),
{
    if players.len() == 0 || (players[0].conn == conn && !players[0].gone) {
        0
    } else {
        1 + seat_of(players.skip(1), conn)
    }
}

/// Where each member of a starting session stands, and what everyone brought.
pub open spec fn starters_of(players: Seq<PlayerView>) -> Seq<StarterView> {
    players.map_values(
        |p: PlayerView| StarterView { nick: p.nick, rom_crc32: p.rom_crc32, save: p.save },
    )
}

/// Each member's start message.
pub open spec fn starts(players: Seq<PlayerView>, clock: u64) -> Seq<(u64, ReplyView)> {
    Seq::new(
        players.len(),
        |i: int|
            (
                players[i].conn,
                ReplyView::Starting {
                    clock_unix_micros: clock,
                    players: starters_of(players),
                    your_idx: i as u8,
                },
            ),
    )
}

/// Everyone without their save: it has been handed out.
pub open spec fn without_saves(players: Seq<PlayerView>) -> Seq<PlayerView> {
    players.map_values(|p: PlayerView| PlayerView { save: None, ..p })
}

/// Whether everyone is ready.
pub open spec fn everyone_ready(players: Seq<PlayerView>) -> bool {
    forall|i: int| 0 <= i < players.len() ==> (#[trigger] players[i]).ready
}

/// The nick a player goes by: at most [`MAX_NICK`] characters of what they
/// typed without the white space around it, and `player` where that is
/// nothing.
pub open spec fn shown_nick(nick: Seq<char>) -> Seq<char> {
    let t = trimmed(nick);
    let n = if t.len() < MAX_NICK {
        t
    } else {
        t.take(MAX_NICK as int)
    };
    if n.len() == 0 {
        "player"@
    } else {
        n
    }
}

// ---------------------------------------------------------------------
// What a request does
// ---------------------------------------------------------------------

/// The rooms by code, and what came of a request: the rooms after it, the
/// room the connection is in, what is sent, and whether the connection stays
/// open.
#[verifier::ext_equal]
pub struct Outcome {
    pub rooms: Map<Seq<char>, RoomView>,
    pub member: Option<Seq<char>>,
    pub sent: Seq<(u64, ReplyView)>,
    pub open: bool,
}

/// Nothing happens.
pub open spec fn ignored(
    rooms: Map<Seq<char>, RoomView>,
    member: Option<Seq<char>>,
) -> Outcome {
    Outcome { rooms, member, sent: Seq::empty(), open: true }
}

/// Nothing happens but an error for the one who asked.
pub open spec fn refused(
    rooms: Map<Seq<char>, RoomView>,
    member: Option<Seq<char>>,
    conn: u64,
    kind: ErrorKind,
    message: Seq<char>,
) -> Outcome {
    Outcome {
        rooms,
        member,
        sent: seq![(conn, ReplyView::Error { kind, message })],
        open: kind != ErrorKind::ProtocolVersionMismatch,
    }
}

/// A player as they enter.
pub open spec fn newcomer(
    conn: u64,
    nick: Seq<char>,
    rom_crc32: u32,
    rom_title: Seq<char>,
) -> PlayerView {
    PlayerView {
        nick: shown_nick(nick),
        ready: false,
        rom_crc32,
        rom_title,
        save: None,
        conn,
        gone: false,
    }
}

/// Opening a room under a code nobody uses.
pub open spec fn created(
    rooms: Map<Seq<char>, RoomView>,
    p: PlayerView,
    code: Seq<char>,
) -> Outcome {
    Outcome {
        rooms: rooms.insert(code, RoomView { started: false, players: seq![p] }),
        member: Some(code),
        sent: seq![(p.conn, ReplyView::RoomCreated { code })] + rosters(seq![p]),
        open: true,
    }
}

/// Entering a room: whatever anyone agreed to ready up for no longer
/// describes it, so everyone is unready.
pub open spec fn joined(
    rooms: Map<Seq<char>, RoomView>,
    p: PlayerView,
    code: Seq<char>,
) -> Outcome {
    let players = all_unready(rooms[code].players).push(p);
    Outcome {
        rooms: rooms.insert(code, RoomView { started: false, players }),
        member: Some(code),
        sent: seq![(p.conn, ReplyView::RoomJoined { code })] + rosters(players),
        open: true,
    }
}

/// The player at `i` reports ready or not, with a save only when ready.
pub open spec fn reported(
    players: Seq<PlayerView>,
    i: int,
    ready: bool,
    save: Option<Seq<u8>>,
) -> Seq<PlayerView> {
    players.update(
        i,
        PlayerView {
            ready,
            save: if ready {
                save
            } else {
                None
            },
            ..players[i]
        },
    )
}

/// What comes of one request. `fresh` is the code a new room would get, and
/// `clock` the time.
pub open spec fn step(
    rooms: Map<Seq<char>, RoomView>,
    member: Option<Seq<char>>,
    conn: u64,
    request: RequestView,
    fresh: Seq<char>,
    clock: u64,
    max_save: nat,
) -> Outcome {
    match request {
        RequestView::CreateRoom { protocol_version, nick, rom_crc32, rom_title } => {
            if member is Some {
                refused(rooms, member, conn, ErrorKind::Malformed, "already in a room"@)
            } else if protocol_version != PROTOCOL_VERSION {
                refused(
                    rooms,
                    member,
                    conn,
                    ErrorKind::ProtocolVersionMismatch,
                    "update your client"@,
                )
            } else {
                created(rooms, newcomer(conn, nick, rom_crc32, rom_title), fresh)
            }
        },
        RequestView::JoinRoom { protocol_version, code, nick, rom_crc32, rom_title } => {
            let code = normalized_code(code);
            if member is Some {
                refused(rooms, member, conn, ErrorKind::Malformed, "already in a room"@)
            } else if protocol_version != PROTOCOL_VERSION {
                refused(
                    rooms,
                    member,
                    conn,
                    ErrorKind::ProtocolVersionMismatch,
                    "update your client"@,
                )
            } else if !rooms.contains_key(code) {
                refused(rooms, member, conn, ErrorKind::RoomNotFound, "no such room"@)
            } else if rooms[code].started {
                refused(rooms, member, conn, ErrorKind::RoomAlreadyStarted, "room already started"@)
            } else if rooms[code].players.len() >= MAX_PLAYERS {
                refused(rooms, member, conn, ErrorKind::RoomFull, "room is full"@)
            } else {
                joined(rooms, newcomer(conn, nick, rom_crc32, rom_title), code)
            }
        },
        RequestView::SetReady { ready, save } => {
            if member is None {
                ignored(rooms, member)
            } else if save is Some && save->Some_0.len() > max_save {
                refused(rooms, member, conn, ErrorKind::Malformed, "save image too large"@)
            } else {
                let code = member->Some_0;
                let i = seat_of(rooms[code].players, conn) as int;
                if !rooms.contains_key(code) || rooms[code].started || i
                    >= rooms[code].players.len() {
                    ignored(rooms, member)
                } else {
                    let players = reported(rooms[code].players, i, ready, save);
                    Outcome {
                        rooms: rooms.insert(code, RoomView { started: false, players }),
                        member,
                        sent: rosters(players),
                        open: true,
                    }
                }
            }
        },
        RequestView::Chat { text } => {
            let code = member->Some_0;
            let players = rooms[code].players;
            let i = seat_of(players, conn) as int;
            if member is None || !rooms.contains_key(code) || i >= players.len() {
                ignored(rooms, member)
            } else {
                let line = if text.len() < MAX_CHAT {
                    text
                } else {
                    text.take(MAX_CHAT as int)
                };
                Outcome {
                    rooms,
                    member,
                    sent: to_all(
                        players,
                        ReplyView::Chat { from: i as u8, nick: players[i].nick, text: line },
                    ),
                    open: true,
                }
            }
        },
        RequestView::Start => {
            let code = member->Some_0;
            let players = rooms[code].players;
            let i = seat_of(players, conn) as int;
            if member is None || !rooms.contains_key(code) || rooms[code].started || i
                >= players.len() {
                ignored(rooms, member)
            } else if i != 0 {
                refused(rooms, member, conn, ErrorKind::NotHost, "only the host can start"@)
            } else if players.len() < 2 || !everyone_ready(players) {
                refused(
                    rooms,
                    member,
                    conn,
                    ErrorKind::NotEveryoneReady,
                    "need 2+ players, all ready"@,
                )
            } else {
                Outcome {
                    rooms: rooms.insert(
                        code,
                        RoomView { started: true, players: without_saves(players) },
                    ),
                    member,
                    sent: starts(players, clock),
                    open: true,
                }
            }
        },
        RequestView::Signal { to, payload } => {
            let code = member->Some_0;
            let players = rooms[code].players;
            let i = seat_of(players, conn) as int;
            if member is None || !rooms.contains_key(code) {
                ignored(rooms, member)
            } else if !rooms[code].started {
                refused(rooms, member, conn, ErrorKind::Malformed, "room hasn't started"@)
            } else if i >= players.len() || to >= players.len() || players[to as int].gone {
                ignored(rooms, member)
            } else {
                Outcome {
                    rooms,
                    member,
                    sent: seq![
                        (players[to as int].conn, ReplyView::Signal { from: i as u8, payload }),
                    ],
                    open: true,
                }
            }
        },
        RequestView::Leave => {
            Outcome { rooms, member, sent: Seq::empty(), open: false }
        },
    }
}

/// The players after the one at `i` has left. Before the start the others move
/// up, and are unready; after it seats are frozen (they are core indices), and
/// the one at `i` is marked as gone.
pub open spec fn remaining(room: RoomView, i: int) -> Seq<PlayerView> {
    if room.started {
        room.players.update(i, PlayerView { gone: true, ..room.players[i] })
    } else {
        all_unready(room.players.remove(i))
    }
}

/// What comes of a connection ending: its player leaves the room. Before the
/// start everyone else sees the new roster; after it they hear who is gone. A
/// room with nobody in it closes.
pub open spec fn left(
    rooms: Map<Seq<char>, RoomView>,
    member: Option<Seq<char>>,
    conn: u64,
) -> Outcome {
    let code = member->Some_0;
    let room = rooms[code];
    let i = seat_of(room.players, conn) as int;
    if member is None || !rooms.contains_key(code) || i >= room.players.len() {
        Outcome { rooms, member: None, sent: Seq::empty(), open: false }
    } else {
        let players = remaining(room, i);
        Outcome {
            rooms: if deserted(players) {
                rooms.remove(code)
            } else {
                rooms.insert(code, RoomView { started: room.started, players })
            },
            member: None,
            sent: if room.started {
                to_all(players, ReplyView::PeerLeft { player_idx: i as u8 })
            } else {
                rosters(players)
            },
            open: false,
        }
    }
}

// ---------------------------------------------------------------------
// The rooms, held
// ---------------------------------------------------------------------

/// The position of the first room under a code; the number of rooms where
/// there is none.
pub open spec fn room_at(rooms: Seq<Room>, code: Seq<char>) -> nat
    decreases rooms.len(),
{
    if rooms.len() == 0 || rooms[0].code@ == code {
        0
    } else {
        1 + room_at(rooms.skip(1), code)
    }
}

/// Every open room.
#[derive(Debug)]
pub struct Rooms {
    pub rooms: Vec<Room>,
    /// Largest save a player may bring, in bytes.
    pub max_save: usize,
}

/// The rooms by code.
pub open spec fn rooms_map(rooms: Seq<Room>) -> Map<Seq<char>, RoomView> {
    Map::new(
        |code: Seq<char>| room_at(rooms, code) < rooms.len(),
        |code: Seq<char>| rooms[room_at(rooms, code) as int]@,
    )
}

impl View for Rooms {
    type V = Map<Seq<char>, RoomView>;

    open spec fn view(&self) -> Map<Seq<char>, RoomView> {
        rooms_map(self.rooms@)
    }
}

proof fn lemma_room_at(rooms: Seq<Room>, code: Seq<char>)
    ensures
        room_at(rooms, code) <= rooms.len(),
        room_at(rooms, code) < rooms.len() ==> rooms[room_at(rooms, code) as int].code@ == code,
        forall|j: int| 0 <= j < room_at(rooms, code) ==> (#[trigger] rooms[j]).code@ != code,
    decreases rooms.len(),
{
    if rooms.len() > 0 && rooms[0].code@ != code {
        let more = rooms.skip(1);
        lemma_room_at(more, code);
        assert forall|j: int| 0 <= j < room_at(rooms, code) implies (#[trigger] rooms[j]).code@
            != code by {
            if j > 0 {
                assert(more[j - 1] == rooms[j]);
            }
        }
    }
}

/// The first position that fits is the position of the code.
proof fn lemma_room_at_is(rooms: Seq<Room>, code: Seq<char>, i: int)
    requires
        0 <= i <= rooms.len(),
        i < rooms.len() ==> rooms[i].code@ == code,
        forall|j: int| 0 <= j < i ==> (#[trigger] rooms[j]).code@ != code,
    ensures
        room_at(rooms, code) == i,
{
    lemma_room_at(rooms, code);
    let k = room_at(rooms, code) as int;
    if k < i {
        assert(rooms[k].code@ != code);
    }
    if i < k {
        assert(rooms[i].code@ != code);
    }
}

/// No two rooms under one code.
pub open spec fn distinct(rooms: Seq<Room>) -> bool {
    forall|i: int, j: int|
        0 <= i < j < rooms.len() ==> (#[trigger] rooms[i]).code@ != (#[trigger] rooms[j]).code@
}

proof fn lemma_map_push(rooms: Seq<Room>, room: Room)
    requires
        distinct(rooms),
        !rooms_map(rooms).contains_key(room.code@),
    ensures
        distinct(rooms.push(room)),
        rooms_map(rooms.push(room)) == rooms_map(rooms).insert(room.code@, room@),
{
    let more = rooms.push(room);
    lemma_room_at(rooms, room.code@);
    assert forall|i: int, j: int| 0 <= i < j < more.len() implies (#[trigger] more[i]).code@ != (
    #[trigger] more[j]).code@ by {
        if j == rooms.len() {
            assert(rooms[i].code@ != room.code@);
        }
    }
    assert forall|code: Seq<char>| (#[trigger] room_at(more, code)) == if code == room.code@ {
        rooms.len()
    } else if room_at(rooms, code) < rooms.len() {
        room_at(rooms, code)
    } else {
        more.len()
    } by {
        lemma_room_at(rooms, code);
        let i = if code == room.code@ {
            rooms.len()
        } else if room_at(rooms, code) < rooms.len() {
            room_at(rooms, code)
        } else {
            more.len()
        };
        assert forall|j: int| 0 <= j < i implies (#[trigger] more[j]).code@ != code by {
            if j < rooms.len() {
                assert(rooms[j] == more[j]);
            }
        }
        lemma_room_at_is(more, code, i as int);
    }
    assert(rooms_map(more) =~= rooms_map(rooms).insert(room.code@, room@));
}

proof fn lemma_map_update(rooms: Seq<Room>, i: int, room: Room)
    requires
        distinct(rooms),
        0 <= i < rooms.len(),
        room.code@ == rooms[i].code@,
    ensures
        distinct(rooms.update(i, room)),
        rooms_map(rooms.update(i, room)) == rooms_map(rooms).insert(room.code@, room@),
{
    let more = rooms.update(i, room);
    assert forall|j: int| 0 <= j < more.len() implies (#[trigger] more[j]).code@ == rooms[j].code@ by {
        if j == i {}
    }
    assert forall|a: int, b: int| 0 <= a < b < more.len() implies (#[trigger] more[a]).code@ != (
    #[trigger] more[b]).code@ by {
        assert(rooms[a].code@ != rooms[b].code@);
    }
    assert forall|code: Seq<char>| (#[trigger] room_at(more, code)) == room_at(rooms, code) by {
        lemma_room_at(rooms, code);
        let k = room_at(rooms, code) as int;
        assert forall|j: int| 0 <= j < k implies (#[trigger] more[j]).code@ != code by {
            assert(rooms[j].code@ != code);
        }
        lemma_room_at_is(more, code, k);
    }
    assert forall|j: int| 0 <= j < i implies (#[trigger] rooms[j]).code@ != room.code@ by {
        assert(rooms[i].code@ == room.code@);
    }
    lemma_room_at_is(rooms, room.code@, i);
    assert forall|code: Seq<char>| room_at(rooms, code) == i implies code == room.code@ by {
        lemma_room_at(rooms, code);
    }
    assert(rooms_map(more) =~= rooms_map(rooms).insert(room.code@, room@));
}

proof fn lemma_map_remove(rooms: Seq<Room>, i: int)
    requires
        distinct(rooms),
        0 <= i < rooms.len(),
    ensures
        distinct(rooms.remove(i)),
        rooms_map(rooms.remove(i)) == rooms_map(rooms).remove(rooms[i].code@),
{
    let less = rooms.remove(i);
    let gone = rooms[i].code@;
    assert forall|j: int| 0 <= j < less.len() implies #[trigger] less[j] == rooms[if j < i {
        j
    } else {
        j + 1
    }] by {}
    assert forall|a: int, b: int| 0 <= a < b < less.len() implies (#[trigger] less[a]).code@ != (
    #[trigger] less[b]).code@ by {
        let a1 = if a < i {
            a
        } else {
            a + 1
        };
        let b1 = if b < i {
            b
        } else {
            b + 1
        };
        assert(rooms[a1].code@ != rooms[b1].code@);
    }
    assert forall|code: Seq<char>| (#[trigger] room_at(less, code)) == if code == gone {
        less.len()
    } else if room_at(rooms, code) < i {
        room_at(rooms, code)
    } else {
        (room_at(rooms, code) - 1) as nat
    } by {
        lemma_room_at(rooms, code);
        let k = room_at(rooms, code) as int;
        if code == gone {
            assert forall|j: int| 0 <= j < less.len() implies (#[trigger] less[j]).code@ != code by {
                let j1 = if j < i {
                    j
                } else {
                    j + 1
                };
                assert(rooms[j1].code@ != rooms[i].code@);
            }
            lemma_room_at_is(less, code, less.len() as int);
        } else {
            let m = if k < i {
                k
            } else {
                k - 1
            };
            assert forall|j: int| 0 <= j < m implies (#[trigger] less[j]).code@ != code by {
                let j1 = if j < i {
                    j
                } else {
                    j + 1
                };
                assert(rooms[j1].code@ != code);
            }
            if k == i {
                assert(rooms[i].code@ == code);
            }
            lemma_room_at_is(less, code, m);
        }
    }
    assert forall|code: Seq<char>| code != gone implies (rooms_map(less).contains_key(code)
        <==> #[trigger] rooms_map(rooms).contains_key(code)) by {
        lemma_room_at(rooms, code);
    }
    assert forall|code: Seq<char>| #[trigger] rooms_map(less).contains_key(code) implies rooms_map(
        less,
    )[code] == rooms_map(rooms)[code] by {
        lemma_room_at(rooms, code);
        let k = room_at(rooms, code) as int;
        if k == i {
            assert(rooms[i].code@ == code);
        }
    }
    assert(rooms_map(less) =~= rooms_map(rooms).remove(gone));
}

// ---------------------------------------------------------------------
// Requests, handled
// ---------------------------------------------------------------------

fn copy_blob(b: &Option<Vec<u8>>) -> (c: Option<Vec<u8>>)
    ensures
        blob_view(c) == blob_view(*b),
{
    match b {
        Some(v) => Some(crate::bytes::to_vec(v.as_slice())),
        None => None,
    }
}

/// At most `n` characters of a text.
fn first_chars(text: &[char], n: usize) -> (t: String)
    ensures
        t@ == (if text@.len() < n {
            text@
        } else {
            text@.take(n as int)
        }),
{
    let m: usize = if text.len() < n {
        text.len()
    } else {
        n
    };
    proof {
        assert(text@.subrange(0, m as int) =~= (if text@.len() < n {
            text@
        } else {
            text@.take(n as int)
        }));
    }
    text_from(vstd::slice::slice_subrange(text, 0, m))
}

pub fn sanitize_nick(nick: &str) -> (n: String)
    ensures
        n@ == shown_nick(nick@),
{
    let chars = chars_of(nick);
    let t = trim(chars.as_slice());
    let n = first_chars(t, MAX_NICK);
    if n.as_str().is_empty() {
        "player".to_owned()
    } else {
        n
    }
}

impl Room {
    pub fn roster(&self) -> (roster: Vec<Member>)
        ensures
            members_view(roster@) == roster_of(self@.players),
    {
        let mut roster: Vec<Member> = Vec::new();
        let mut i: usize = 0;
        while i < self.players.len()
            invariant
                i <= self.players@.len(),
                members_view(roster@) == roster_of(self@.players.take(i as int)),
            decreases self.players@.len() - i,
        {
            let p = &self.players[i];
            let m = Member {
                nick: p.nick.clone(),
                ready: p.ready,
                rom_crc32: p.rom_crc32,
                rom_title: p.rom_title.clone(),
            };
            let ghost before = roster@;
            roster.push(m);
            i = i + 1;
            proof {
                assert(members_view(roster@) =~= members_view(before).push(m@));
                assert(m@ == member_of(self@.players[i - 1]));
                assert(roster_of(self@.players.take(i as int)) =~= roster_of(
                    self@.players.take(i - 1),
                ).push(m@));
            }
        }
        assert(self@.players.take(i as int) =~= self@.players);
        roster
    }

    /// Occupancy changed: whatever anyone agreed to ready up for no longer
    /// describes the room, so ready state (and the saves behind it) resets
    /// for everyone.
    pub fn reset_ready(&mut self)
        ensures
            final(self).code == old(self).code,
            final(self)@ == (RoomView {
                started: old(self)@.started,
                players: all_unready(old(self)@.players),
            }),
    {
        let n: usize = self.players.len();
        let ghost before = self.players@;
        let mut i: usize = 0;
        while i < n
            invariant
                i <= n,
                n == before.len() == self.players@.len(),
                before == old(self).players@,
                self.code == old(self).code,
                self.started == old(self).started,
                forall|j: int|
                    0 <= j < n ==> (#[trigger] self.players@[j])@ == if j < i {
                        unready(before[j]@)
                    } else {
                        before[j]@
                    },
            decreases n - i,
        {
            self.players[i].ready = false;
            self.players[i].save = None;
            i = i + 1;
        }
        assert(players_view(self.players@) =~= all_unready(players_view(before)));
    }

    /// Everyone's saves have been handed out; no need to keep them.
    fn drop_saves(&mut self)
        ensures
            final(self).code == old(self).code,
            final(self)@ == (RoomView {
                started: old(self)@.started,
                players: without_saves(old(self)@.players),
            }),
    {
        let n: usize = self.players.len();
        let ghost before = self.players@;
        let mut i: usize = 0;
        while i < n
            invariant
                i <= n,
                n == before.len() == self.players@.len(),
                before == old(self).players@,
                self.code == old(self).code,
                self.started == old(self).started,
                forall|j: int|
                    0 <= j < n ==> (#[trigger] self.players@[j])@ == if j < i {
                        (PlayerView { save: None, ..before[j]@ })
                    } else {
                        before[j]@
                    },
            decreases n - i,
        {
            self.players[i].save = None;
            i = i + 1;
        }
        assert(players_view(self.players@) =~= without_saves(players_view(before)));
    }

    /// Queue each member's roster, stamped with their own position.
    pub fn broadcast_roster(&self, out: &mut Vec<(u64, Reply)>)
        ensures
            replies_view(final(out)@) == replies_view(old(out)@) + rosters(self@.players),
    {
        let mut i: usize = 0;
        let ghost all = rosters(self@.players);
        proof {
            assert(replies_view(old(out)@) + all.take(0) =~= replies_view(old(out)@));
        }
        while i < self.players.len()
            invariant
                i <= self.players@.len(),
                all == rosters(self@.players),
                replies_view(out@) == replies_view(old(out)@) + all.take(i as int),
            decreases self.players@.len() - i,
        {
            let players = self.roster();
            let r = Reply::Roster { players, your_idx: i as u8 };
            let ghost before = out@;
            let to: u64 = self.players[i].conn;
            out.push((to, r));
            proof {
                assert(replies_view(out@) =~= replies_view(before).push((to, r@)));
                assert(all[i as int] == (to, r@));
                assert(all.take(i + 1) =~= all.take(i as int).push(all[i as int]));
                assert(replies_view(out@) =~= replies_view(old(out)@) + all.take(i + 1));
            }
            i = i + 1;
        }
        assert(all.take(i as int) =~= all);
    }

    fn broadcast_chat(&self, from: u8, nick: &String, text: &String, out: &mut Vec<(u64, Reply)>)
        ensures
            replies_view(final(out)@) == replies_view(old(out)@) + to_all(
                self@.players,
                ReplyView::Chat { from, nick: nick@, text: text@ },
            ),
    {
        let ghost said = ReplyView::Chat { from, nick: nick@, text: text@ };
        let mut i: usize = 0;
        proof {
            reveal(Seq::filter);
            assert(replies_view(old(out)@) + to_all(self@.players.take(0), said)
                =~= replies_view(old(out)@));
        }
        while i < self.players.len()
            invariant
                i <= self.players@.len(),
                said == (ReplyView::Chat { from, nick: nick@, text: text@ }),
                replies_view(out@) == replies_view(old(out)@) + to_all(
                    self@.players.take(i as int),
                    said,
                ),
            decreases self.players@.len() - i,
        {
            proof {
                lemma_to_all_next(self@.players, said, i as int);
            }
            if !self.players[i].gone {
                let r = Reply::Chat { from, nick: nick.clone(), text: text.clone() };
                let ghost before = out@;
                let to: u64 = self.players[i].conn;
                out.push((to, r));
                proof {
                    assert(replies_view(out@) =~= replies_view(before).push((to, r@)));
                    assert(replies_view(out@) =~= replies_view(old(out)@) + to_all(
                        self@.players.take(i + 1),
                        said,
                    ));
                }
            }
            i = i + 1;
        }
        assert(self@.players.take(i as int) =~= self@.players);
    }

    fn broadcast_peer_left(&self, player_idx: u8, out: &mut Vec<(u64, Reply)>)
        ensures
            replies_view(final(out)@) == replies_view(old(out)@) + to_all(
                self@.players,
                ReplyView::PeerLeft { player_idx },
            ),
    {
        let ghost said = ReplyView::PeerLeft { player_idx };
        let mut i: usize = 0;
        proof {
            reveal(Seq::filter);
            assert(replies_view(old(out)@) + to_all(self@.players.take(0), said)
                =~= replies_view(old(out)@));
        }
        while i < self.players.len()
            invariant
                i <= self.players@.len(),
                said == (ReplyView::PeerLeft { player_idx }),
                replies_view(out@) == replies_view(old(out)@) + to_all(
                    self@.players.take(i as int),
                    said,
                ),
            decreases self.players@.len() - i,
        {
            proof {
                lemma_to_all_next(self@.players, said, i as int);
            }
            if !self.players[i].gone {
                let r = Reply::PeerLeft { player_idx };
                let ghost before = out@;
                let to: u64 = self.players[i].conn;
                out.push((to, r));
                proof {
                    assert(replies_view(out@) =~= replies_view(before).push((to, r@)));
                    assert(replies_view(out@) =~= replies_view(old(out)@) + to_all(
                        self@.players.take(i + 1),
                        said,
                    ));
                }
            }
            i = i + 1;
        }
        assert(self@.players.take(i as int) =~= self@.players);
    }

    fn starters(&self) -> (starters: Vec<Starter>)
        ensures
            starters_view(starters@) == starters_of(self@.players),
    {
        let mut starters: Vec<Starter> = Vec::new();
        let mut i: usize = 0;
        while i < self.players.len()
            invariant
                i <= self.players@.len(),
                starters_view(starters@) == starters_of(self@.players.take(i as int)),
            decreases self.players@.len() - i,
        {
            let p = &self.players[i];
            let m = Starter {
                nick: p.nick.clone(),
                rom_crc32: p.rom_crc32,
                save: copy_blob(&p.save),
            };
            let ghost before = starters@;
            starters.push(m);
            i = i + 1;
            proof {
                assert(starters_view(starters@) =~= starters_view(before).push(m@));
                assert(starters_of(self@.players.take(i as int)) =~= starters_of(
                    self@.players.take(i - 1),
                ).push(m@));
            }
        }
        assert(self@.players.take(i as int) =~= self@.players);
        starters
    }

    fn broadcast_starting(&self, clock_unix_micros: u64, out: &mut Vec<(u64, Reply)>)
        ensures
            replies_view(final(out)@) == replies_view(old(out)@) + starts(
                self@.players,
                clock_unix_micros,
            ),
    {
        let ghost all = starts(self@.players, clock_unix_micros);
        let mut i: usize = 0;
        proof {
            assert(replies_view(old(out)@) + all.take(0) =~= replies_view(old(out)@));
        }
        while i < self.players.len()
            invariant
                i <= self.players@.len(),
                all == starts(self@.players, clock_unix_micros),
                replies_view(out@) == replies_view(old(out)@) + all.take(i as int),
            decreases self.players@.len() - i,
        {
            let players = self.starters();
            let r = Reply::Starting { clock_unix_micros, players, your_idx: i as u8 };
            let ghost before = out@;
            let to: u64 = self.players[i].conn;
            out.push((to, r));
            proof {
                assert(replies_view(out@) =~= replies_view(before).push((to, r@)));
                assert(all[i as int] == (to, r@));
                assert(all.take(i + 1) =~= all.take(i as int).push(all[i as int]));
                assert(replies_view(out@) =~= replies_view(old(out)@) + all.take(i + 1));
            }
            i = i + 1;
        }
        assert(all.take(i as int) =~= all);
    }

    /// The position of the player on a connection, while they are there; the
    /// number of players where there is none.
    pub fn player_idx(&self, conn: u64) -> (i: usize)
        ensures
            i == seat_of(self@.players, conn),
            i <= self.players@.len(),
    {
        let ghost all = self@.players;
        let mut i: usize = 0;
        proof {
            assert(all.skip(0) =~= all);
        }
        while i < self.players.len() && (self.players[i].conn != conn || self.players[i].gone)
            invariant
                i <= self.players@.len(),
                all == self@.players,
                seat_of(all, conn) == i + seat_of(all.skip(i as int), conn),
            decreases self.players@.len() - i,
        {
            assert(all.skip(i as int).skip(1) =~= all.skip(i + 1));
            i = i + 1;
        }
        i
    }

    fn all_ready(&self) -> (b: bool)
        ensures
            b == everyone_ready(self@.players),
    {
        let mut i: usize = 0;
        while i < self.players.len()
            invariant
                i <= self.players@.len(),
                forall|j: int| 0 <= j < i ==> (#[trigger] self@.players[j]).ready,
            decreases self.players@.len() - i,
        {
            if !self.players[i].ready {
                assert(!self@.players[i as int].ready);
                return false;
            }
            i = i + 1;
        }
        true
    }

    /// Whether nobody is there any more.
    fn is_deserted(&self) -> (b: bool)
        ensures
            b == deserted(self@.players),
    {
        let mut i: usize = 0;
        while i < self.players.len()
            invariant
                i <= self.players@.len(),
                forall|j: int| 0 <= j < i ==> (#[trigger] self@.players[j]).gone,
            decreases self.players@.len() - i,
        {
            if !self.players[i].gone {
                assert(!self@.players[i as int].gone);
                return false;
            }
            i = i + 1;
        }
        true
    }
}

fn push_error(conn: u64, kind: ErrorKind, message: &str, out: &mut Vec<(u64, Reply)>)
    ensures
        replies_view(final(out)@) == replies_view(old(out)@).push(
            (conn, ReplyView::Error { kind, message: message@ }),
        ),
{
    let r = Reply::Error { kind, message: message.to_owned() };
    out.push((conn, r));
    assert(replies_view(out@) =~= replies_view(old(out)@).push((conn, r@)));
}

/// The code of the room a connection is in.
pub open spec fn member_view(member: Option<String>) -> Option<Seq<char>> {
    match member {
        Some(code) => Some(code@),
        None => None,
    }
}

impl Rooms {
    /// No two rooms under one code.
    pub open spec fn wf(&self) -> bool {
        distinct(self.rooms@)
    }

    pub fn new(max_save: usize) -> (rooms: Rooms)
        ensures
            rooms.wf(),
            rooms@ == Map::<Seq<char>, RoomView>::empty(),
            rooms.max_save == max_save,
    {
        let rooms = Rooms { rooms: Vec::new(), max_save };
        assert(rooms@ =~= Map::<Seq<char>, RoomView>::empty());
        rooms
    }

    /// The position of the room under a code.
    fn find(&self, code: &str) -> (i: usize)
        ensures
            i == room_at(self.rooms@, code@),
            i <= self.rooms@.len(),
            i < self.rooms@.len() <==> self@.contains_key(code@),
            i < self.rooms@.len() ==> self.rooms@[i as int].code@ == code@
                && self.rooms@[i as int]@ == self@[code@],
    {
        let mut i: usize = 0;
        while i < self.rooms.len()
            invariant
                i <= self.rooms@.len(),
                forall|j: int| 0 <= j < i ==> (#[trigger] self.rooms@[j]).code@ != code@,
            decreases self.rooms@.len() - i,
        {
            if same_text(self.rooms[i].code.as_str(), code) {
                proof {
                    lemma_room_at_is(self.rooms@, code@, i as int);
                }
                return i;
            }
            i = i + 1;
        }
        proof {
            lemma_room_at_is(self.rooms@, code@, i as int);
        }
        i
    }

    /// Whether a room stands under a code.
    pub fn contains(&self, code: &str) -> (b: bool)
        ensures
            b == self@.contains_key(code@),
    {
        self.find(code) < self.rooms.len()
    }

    /// What comes of a request. Returns what is to be sent, and whether the
    /// connection stays open.
    pub fn handle_message(
        &mut self,
        conn: u64,
        request: Request,
        member: &mut Option<String>,
        fresh: &str,
        clock_unix_micros: u64,
    ) -> (r: (Vec<(u64, Reply)>, bool))
        requires
            old(self).wf(),
            request is CreateRoom ==> !old(self)@.contains_key(fresh@),
        ensures
            final(self).wf(),
            final(self).max_save == old(self).max_save,
            (Outcome {
                rooms: final(self)@,
                member: member_view(*final(member)),
                sent: replies_view(r.0@),
                open: r.1,
            }) == step(
                old(self)@,
                member_view(*old(member)),
                conn,
                request@,
                fresh@,
                clock_unix_micros,
                old(self).max_save as nat,
            ),
    {
        let mut out: Vec<(u64, Reply)> = Vec::new();
        let ghost asked = request@;
        let ghost want = step(
            self@,
            member_view(*member),
            conn,
            request@,
            fresh@,
            clock_unix_micros,
            self.max_save as nat,
        );
        proof {
            assert(replies_view(out@) =~= Seq::<(u64, ReplyView)>::empty());
        }
        let open = match request {
            Request::CreateRoom { protocol_version, nick, rom_crc32, rom_title } => {
                if member.is_some() {
                    push_error(conn, ErrorKind::Malformed, "already in a room", &mut out);
                    true
                } else if protocol_version != PROTOCOL_VERSION {
                    push_error(
                        conn,
                        ErrorKind::ProtocolVersionMismatch,
                        "update your client",
                        &mut out,
                    );
                    false
                } else {
                    let p = Player {
                        nick: sanitize_nick(nick.as_str()),
                        ready: false,
                        rom_crc32,
                        rom_title,
                        save: None,
                        conn,
                        gone: false,
                    };
                    let ghost pv = p@;
                    self.create(p, fresh, &mut out);
                    *member = Some(fresh.to_owned());
                    assert(want == created(old(self)@, pv, fresh@));
                    true
                }
            },
            Request::JoinRoom { protocol_version, code, nick, rom_crc32, rom_title } => {
                if member.is_some() {
                    push_error(conn, ErrorKind::Malformed, "already in a room", &mut out);
                    true
                } else if protocol_version != PROTOCOL_VERSION {
                    push_error(
                        conn,
                        ErrorKind::ProtocolVersionMismatch,
                        "update your client",
                        &mut out,
                    );
                    false
                } else {
                    let code = normalize_room_code(code.as_str());
                    let i: usize = self.find(code.as_str());
                    if i >= self.rooms.len() {
                        push_error(conn, ErrorKind::RoomNotFound, "no such room", &mut out);
                        true
                    } else if self.rooms[i].started {
                        push_error(
                            conn,
                            ErrorKind::RoomAlreadyStarted,
                            "room already started",
                            &mut out,
                        );
                        true
                    } else if self.rooms[i].players.len() >= MAX_PLAYERS {
                        push_error(conn, ErrorKind::RoomFull, "room is full", &mut out);
                        true
                    } else {
                        let p = Player {
                            nick: sanitize_nick(nick.as_str()),
                            ready: false,
                            rom_crc32,
                            rom_title,
                            save: None,
                            conn,
                            gone: false,
                        };
                        let ghost pv = p@;
                        self.join(i, p, code.as_str(), &mut out);
                        *member = Some(code);
                        assert(want == joined(old(self)@, pv, code@));
                        true
                    }
                }
            },
            Request::SetReady { ready, save } => {
                match member.as_ref() {
                    None => {},
                    Some(code) => {
                        let too_large = match &save {
                            Some(s) => s.len() > self.max_save,
                            None => false,
                        };
                        if too_large {
                            push_error(conn, ErrorKind::Malformed, "save image too large", &mut out);
                        } else {
                            let i: usize = self.find(code.as_str());
                            if i < self.rooms.len() && !self.rooms[i].started {
                                self.set_ready(i, conn, ready, save, &mut out);
                            }
                        }
                    },
                }
                true
            },
            Request::Chat { text } => {
                match member.as_ref() {
                    None => {},
                    Some(code) => {
                        let chars = chars_of(text.as_str());
                        let line = first_chars(chars.as_slice(), MAX_CHAT);
                        let i: usize = self.find(code.as_str());
                        if i < self.rooms.len() {
                            let room = &self.rooms[i];
                            let from: usize = room.player_idx(conn);
                            if from < room.players.len() {
                                room.broadcast_chat(
                                    from as u8,
                                    &room.players[from].nick,
                                    &line,
                                    &mut out,
                                );
                            }
                        }
                    },
                }
                true
            },
            Request::Start => {
                match member.as_ref() {
                    None => {},
                    Some(code) => {
                        let i: usize = self.find(code.as_str());
                        if i < self.rooms.len() && !self.rooms[i].started {
                            let from: usize = self.rooms[i].player_idx(conn);
                            if from >= self.rooms[i].players.len() {
                            } else if from != 0 {
                                push_error(
                                    conn,
                                    ErrorKind::NotHost,
                                    "only the host can start",
                                    &mut out,
                                );
                            } else if self.rooms[i].players.len() < 2 || !self.rooms[i].all_ready() {
                                push_error(
                                    conn,
                                    ErrorKind::NotEveryoneReady,
                                    "need 2+ players, all ready",
                                    &mut out,
                                );
                            } else {
                                self.start(i, clock_unix_micros, &mut out);
                            }
                        }
                    },
                }
                true
            },
            Request::Signal { to, payload } => {
                match member.as_ref() {
                    None => {},
                    Some(code) => {
                        let i: usize = self.find(code.as_str());
                        if i < self.rooms.len() {
                            let room = &self.rooms[i];
                            if !room.started {
                                push_error(
                                    conn,
                                    ErrorKind::Malformed,
                                    "room hasn't started",
                                    &mut out,
                                );
                            } else {
                                let from: usize = room.player_idx(conn);
                                if from < room.players.len() && (to as usize) < room.players.len()
                                    && !room.players[to as usize].gone {
                                    let target: u64 = room.players[to as usize].conn;
                                    let r = Reply::Signal { from: from as u8, payload };
                                    out.push((target, r));
                                    assert(replies_view(out@) =~= seq![(target, r@)]);
                                }
                            }
                        }
                    },
                }
                true
            },
            Request::Leave => false,
        };
        proof {
            let got = Outcome {
                rooms: self@,
                member: member_view(*member),
                sent: replies_view(out@),
                open,
            };
            assert(got.rooms =~= want.rooms);
            assert(got.sent =~= want.sent);
            assert(got.member =~= want.member);
            assert(got.open == want.open);
        }
        (out, open)
    }

    fn create(&mut self, p: Player, code: &str, out: &mut Vec<(u64, Reply)>)
        requires
            old(self).wf(),
            !old(self)@.contains_key(code@),
            old(out)@.len() == 0,
        ensures
            final(self).wf(),
            final(self).max_save == old(self).max_save,
            final(self)@ == created(old(self)@, p@, code@).rooms,
            replies_view(final(out)@) == created(old(self)@, p@, code@).sent,
    {
        let ghost pv = p@;
        let ghost before = self.rooms@;
        let conn: u64 = p.conn;
        let mut players: Vec<Player> = Vec::new();
        players.push(p);
        let room = Room { code: code.to_owned(), started: false, players };
        proof {
            assert(room@.players =~= seq![pv]);
            lemma_map_push(before, room);
        }
        let r = Reply::RoomCreated { code: code.to_owned() };
        out.push((conn, r));
        proof {
            assert(replies_view(out@) =~= seq![(conn, r@)]);
        }
        room.broadcast_roster(out);
        self.rooms.push(room);
    }

    fn join(&mut self, i: usize, p: Player, code: &str, out: &mut Vec<(u64, Reply)>)
        requires
            old(self).wf(),
            i < old(self).rooms@.len(),
            old(self).rooms@[i as int].code@ == code@,
            old(self).rooms@[i as int]@ == old(self)@[code@],
            !old(self)@[code@].started,
            old(out)@.len() == 0,
        ensures
            final(self).wf(),
            final(self).max_save == old(self).max_save,
            final(self)@ == joined(old(self)@, p@, code@).rooms,
            replies_view(final(out)@) == joined(old(self)@, p@, code@).sent,
    {
        let ghost pv = p@;
        let ghost before = self.rooms@;
        let ghost room = self.rooms@[i as int];
        let conn: u64 = p.conn;
        self.rooms[i].reset_ready();
        let ghost mid = self.rooms@[i as int];
        self.rooms[i].players.push(p);
        proof {
            let now = self.rooms@[i as int];
            assert(now@.players =~= mid@.players.push(pv));
            assert(self.rooms@ =~= before.update(i as int, now));
            lemma_map_update(before, i as int, now);
        }
        let r = Reply::RoomJoined { code: code.to_owned() };
        out.push((conn, r));
        proof {
            assert(replies_view(out@) =~= seq![(conn, r@)]);
        }
        self.rooms[i].broadcast_roster(out);
    }

    fn set_ready(
        &mut self,
        i: usize,
        conn: u64,
        ready: bool,
        save: Option<Vec<u8>>,
        out: &mut Vec<(u64, Reply)>,
    )
        requires
            old(self).wf(),
            i < old(self).rooms@.len(),
            !old(self).rooms@[i as int]@.started,
            old(out)@.len() == 0,
        ensures
            final(self).wf(),
            final(self).max_save == old(self).max_save,
            ({
                let code = old(self).rooms@[i as int].code@;
                let room = old(self).rooms@[i as int]@;
                let at = seat_of(room.players, conn);
                let players = reported(room.players, at as int, ready, blob_view(save));
                if at < room.players.len() {
                    &&& final(self)@ == old(self)@.insert(
                        code,
                        RoomView { started: false, players },
                    )
                    &&& replies_view(final(out)@) == rosters(players)
                } else {
                    &&& final(self)@ == old(self)@
                    &&& final(out)@ == old(out)@
                }
            }),
    {
        let ghost before = self.rooms@;
        let ghost room = self.rooms@[i as int]@;
        let at: usize = self.rooms[i].player_idx(conn);
        if at < self.rooms[i].players.len() {
            let ghost said = blob_view(save);
            let kept: Option<Vec<u8>> = if ready {
                save
            } else {
                None
            };
            self.rooms[i].players[at].ready = ready;
            self.rooms[i].players[at].save = kept;
            proof {
                let now = self.rooms@[i as int];
                assert(now@.players =~= reported(room.players, at as int, ready, said));
                assert(self.rooms@ =~= before.update(i as int, now));
                lemma_map_update(before, i as int, now);
            }
            self.rooms[i].broadcast_roster(out);
            proof {
                assert(replies_view(old(out)@) =~= Seq::<(u64, ReplyView)>::empty());
                assert(replies_view(out@) =~= rosters(self.rooms@[i as int]@.players));
            }
        }
    }

    fn start(&mut self, i: usize, clock_unix_micros: u64, out: &mut Vec<(u64, Reply)>)
        requires
            old(self).wf(),
            i < old(self).rooms@.len(),
            old(out)@.len() == 0,
        ensures
            final(self).wf(),
            final(self).max_save == old(self).max_save,
            final(self)@ == old(self)@.insert(
                old(self).rooms@[i as int].code@,
                RoomView {
                    started: true,
                    players: without_saves(old(self).rooms@[i as int]@.players),
                },
            ),
            replies_view(final(out)@) == starts(
                old(self).rooms@[i as int]@.players,
                clock_unix_micros,
            ),
    {
        let ghost before = self.rooms@;
        self.rooms[i].started = true;
        self.rooms[i].broadcast_starting(clock_unix_micros, out);
        self.rooms[i].drop_saves();
        proof {
            let now = self.rooms@[i as int];
            assert(self.rooms@ =~= before.update(i as int, now));
            lemma_map_update(before, i as int, now);
            assert(replies_view(old(out)@) =~= Seq::<(u64, ReplyView)>::empty());
            assert(replies_view(out@) =~= starts(before[i as int]@.players, clock_unix_micros));
        }
    }

    /// The connection ended: its player leaves the room. Returns what is to
    /// be sent.
    pub fn leave_room(&mut self, conn: u64, member: Option<String>) -> (sent: Vec<(u64, Reply)>)
        requires
            old(self).wf(),
        ensures
            final(self).wf(),
            final(self).max_save == old(self).max_save,
            final(self)@ == left(old(self)@, member_view(member), conn).rooms,
            replies_view(sent@) == left(old(self)@, member_view(member), conn).sent,
    {
        let mut out: Vec<(u64, Reply)> = Vec::new();
        proof {
            assert(replies_view(out@) =~= Seq::<(u64, ReplyView)>::empty());
        }
        let code = match member {
            Some(code) => code,
            None => {
                return out;
            },
        };
        let i: usize = self.find(code.as_str());
        if i >= self.rooms.len() {
            return out;
        }
        let at: usize = self.rooms[i].player_idx(conn);
        if at >= self.rooms[i].players.len() {
            return out;
        }
        let ghost before = self.rooms@;
        let ghost room = self.rooms@[i as int]@;
        if self.rooms[i].started {
            // Positions are frozen once started (they are core indices): the
            // surviving peers hear which one is gone.
            self.rooms[i].players[at].gone = true;
            proof {
                assert(self.rooms@[i as int]@.players =~= remaining(room, at as int));
            }
            self.rooms[i].broadcast_peer_left(at as u8, &mut out);
            proof {
                assert(replies_view(out@) =~= to_all(
                    remaining(room, at as int),
                    ReplyView::PeerLeft { player_idx: at as u8 },
                ));
            }
        } else {
            self.rooms[i].players.remove(at);
            proof {
                assert(self.rooms@[i as int]@.players =~= room.players.remove(at as int));
            }
            self.rooms[i].reset_ready();
            self.rooms[i].broadcast_roster(&mut out);
            proof {
                assert(replies_view(out@) =~= rosters(remaining(room, at as int)));
            }
        }
        proof {
            let now = self.rooms@[i as int];
            assert(self.rooms@ =~= before.update(i as int, now));
            lemma_map_update(before, i as int, now);
        }
        if self.rooms[i].is_deserted() {
            let ghost now = self.rooms@;
            let gone = self.rooms.remove(i);
            proof {
                lemma_map_remove(now, i as int);
                assert(self@ =~= rooms_map(before).remove(code@));
            }
        }
        out
    }
}

/// What arrives on a connection.
#[derive(Debug, Clone, PartialEq, Eq)]
pub enum Frame {
    /// A binary message, and the request it holds where it holds one.
    Binary(Option<Request>),
    Close,
    Ping,
    Pong,
    Text(String),
    /// Anything else.
    Other,
}

/// The text a client may send to keep its connection open.
pub const KEEPALIVE: &'static str = "ping";

/// What comes of one frame. A keepalive is answered.
pub open spec fn frame_step(
    rooms: Map<Seq<char>, RoomView>,
    member: Option<Seq<char>>,
    conn: u64,
    frame: Frame,
    fresh: Seq<char>,
    clock: u64,
    max_save: nat,
) -> Outcome {
    match frame {
        Frame::Binary(Some(request)) => step(
            rooms,
            member,
            conn,
            request@,
            fresh,
            clock,
            max_save,
        ),
        Frame::Binary(None) => refused(
            rooms,
            member,
            conn,
            ErrorKind::Malformed,
            "undecodable message"@,
        ),
        Frame::Close => Outcome { rooms, member, sent: Seq::empty(), open: false },
        Frame::Ping => ignored(rooms, member),
        Frame::Pong => ignored(rooms, member),
        Frame::Text(text) => if text@ == KEEPALIVE@ {
            Outcome { rooms, member, sent: seq![(conn, ReplyView::Pong)], open: true }
        } else {
            refused(rooms, member, conn, ErrorKind::Malformed, "expected a binary message"@)
        },
        Frame::Other => refused(
            rooms,
            member,
            conn,
            ErrorKind::Malformed,
            "expected a binary message"@,
        ),
    }
}

impl Rooms {
    /// What comes of one frame. Returns what is to be sent, and whether the
    /// connection stays open; once it does not, the player leaves by
    /// [`leave_room`](Rooms::leave_room). Only a room's creation needs `fresh`,
    /// the code it is to have.
    pub fn handle_frame(
        &mut self,
        conn: u64,
        frame: Frame,
        member: &mut Option<String>,
        fresh: &str,
        clock_unix_micros: u64,
    ) -> (r: (Vec<(u64, Reply)>, bool))
        requires
            old(self).wf(),
            frame matches Frame::Binary(Some(r)) ==> r is CreateRoom ==> !old(
                self,
            )@.contains_key(fresh@),
        ensures
            final(self).wf(),
            final(self).max_save == old(self).max_save,
            (Outcome {
                rooms: final(self)@,
                member: member_view(*final(member)),
                sent: replies_view(r.0@),
                open: r.1,
            }) == frame_step(
                old(self)@,
                member_view(*old(member)),
                conn,
                frame,
                fresh@,
                clock_unix_micros,
                old(self).max_save as nat,
            ),
    {
        let mut out: Vec<(u64, Reply)> = Vec::new();
        proof {
            assert(replies_view(out@) =~= Seq::<(u64, ReplyView)>::empty());
        }
        match frame {
            Frame::Binary(Some(request)) => self.handle_message(
                conn,
                request,
                member,
                fresh,
                clock_unix_micros,
            ),
            Frame::Binary(None) => {
                push_error(conn, ErrorKind::Malformed, "undecodable message", &mut out);
                assert(replies_view(out@) =~= refused(
                    self@,
                    member_view(*member),
                    conn,
                    ErrorKind::Malformed,
                    "undecodable message"@,
                ).sent);
                (out, true)
            },
            Frame::Close => (out, false),
            Frame::Ping => (out, true),
            Frame::Pong => (out, true),
            Frame::Text(text) => {
                if same_text(text.as_str(), KEEPALIVE) {
                    out.push((conn, Reply::Pong));
                    assert(replies_view(out@) =~= seq![(conn, ReplyView::Pong)]);
                } else {
                    push_error(conn, ErrorKind::Malformed, "expected a binary message", &mut out);
                    assert(replies_view(out@) =~= refused(
                        self@,
                        member_view(*member),
                        conn,
                        ErrorKind::Malformed,
                        "expected a binary message"@,
                    ).sent);
                }
                (out, true)
            },
            Frame::Other => {
                push_error(conn, ErrorKind::Malformed, "expected a binary message", &mut out);
                assert(replies_view(out@) =~= refused(
                    self@,
                    member_view(*member),
                    conn,
                    ErrorKind::Malformed,
                    "expected a binary message"@,
                ).sent);
                (out, true)
            },
        }
    }

    /// Draw a code nobody uses, in at most `tries` draws. Only a code in use is
    /// drawn again: where none is, one draw is enough.
    pub fn fresh_code(&self, tries: usize) -> (code: Option<String>)
        ensures
            code matches Some(c) ==> is_room_code(c@) && !self@.contains_key(c@),
            tries == 0 ==> code is None,
            tries > 0 && (forall|c: Seq<char>| #[trigger]
                self@.contains_key(c) ==> !is_room_code(c)) ==> code is Some,
    {
        let mut i: usize = 0;
        while i < tries
            invariant
                i <= tries,
                i > 0 ==> exists|c: Seq<char>| #[trigger] self@.contains_key(c) && is_room_code(c),
            decreases tries - i,
        {
            let drawn = random_code();
            let ghost c = drawn@;
            match self.free_code(drawn) {
                Some(code) => {
                    return Some(code);
                },
                None => {
                    assert(self@.contains_key(c) && is_room_code(c));
                },
            }
            i = i + 1;
        }
        None
    }

    /// A drawn code, where nobody uses it.
    pub fn free_code(&self, drawn: String) -> (code: Option<String>)
        ensures
            code == if self@.contains_key(drawn@) {
                None
            } else {
                Some(drawn)
            },
    {
        if self.contains(drawn.as_str()) {
            None
        } else {
            Some(drawn)
        }
    }
}

/// `rand::Rng::gen_range` on the thread's generator: some index below `n`,
/// by chance.
#[verifier::external_body]
fn random_index(n: usize) -> (i: usize)
    requires
        n > 0,
    ensures
        i < n,
{
    rand::thread_rng().gen_range(0..n)
}

/// The code that a list of draws spells.
pub fn code_of(draws: &[usize]) -> (code: String)
    requires
        forall|i: int| 0 <= i < draws@.len() ==> #[trigger] draws@[i] < ROOM_CODE_ALPHABET@.len(),
    ensures
        code@ == draws@.map_values(|d: usize| ROOM_CODE_ALPHABET@[d as int]),
{
    let mut chars: Vec<char> = Vec::new();
    let mut i: usize = 0;
    while i < draws.len()
        invariant
            i <= draws@.len(),
            forall|k: int|
                0 <= k < draws@.len() ==> #[trigger] draws@[k] < ROOM_CODE_ALPHABET@.len(),
            chars@ == draws@.take(i as int).map_values(|d: usize| ROOM_CODE_ALPHABET@[d as int]),
        decreases draws@.len() - i,
    {
        chars.push(ROOM_CODE_ALPHABET[draws[i]]);
        i = i + 1;
        assert(chars@ =~= draws@.take(i as int).map_values(
            |d: usize| ROOM_CODE_ALPHABET@[d as int],
        ));
    }
    assert(draws@.take(i as int) =~= draws@);
    text_from(chars.as_slice())
}

/// A code by chance. Which one is left open: it rests on the generator.
pub fn random_code() -> (code: String)
    ensures
        is_room_code(code@),
{
    let mut draws: Vec<usize> = Vec::new();
    let mut i: usize = 0;
    while i < ROOM_CODE_LEN
        invariant
            i <= ROOM_CODE_LEN,
            draws@.len() == i,
            forall|k: int|
                0 <= k < draws@.len() ==> #[trigger] draws@[k] < ROOM_CODE_ALPHABET@.len(),
        decreases ROOM_CODE_LEN - i,
    {
        draws.push(random_index(ROOM_CODE_ALPHABET.len()));
        i = i + 1;
    }
    let code = code_of(draws.as_slice());
    proof {
        assert forall|k: int| 0 <= k < code@.len() implies ROOM_CODE_ALPHABET@.contains(
            #[trigger] code@[k],
        ) by {
            assert(code@[k] == ROOM_CODE_ALPHABET@[draws@[k] as int]);
        }
    }
    code
}

// ---------------------------------------------------------------------
// The servers handed to clients
// ---------------------------------------------------------------------

/// The servers handed out when none are configured.
pub open spec fn default_ice() -> Seq<IceServerView> {
    seq![
        IceServerView {
            urls: seq!["stun:stun.l.google.com:19302"@, "stun:stun1.l.google.com:19302"@],
            username: None,
            credential: None,
        },
    ]
}

/// The ICE servers handed to every client when none are configured.
pub fn default_ice_servers() -> (servers: Vec<IceServer>)
    ensures
        ice_servers_view(servers@) == default_ice(),
{
    let mut urls: Vec<String> = Vec::new();
    urls.push("stun:stun.l.google.com:19302".to_owned());
    urls.push("stun:stun1.l.google.com:19302".to_owned());
    let s = IceServer { urls, username: None, credential: None };
    let mut servers: Vec<IceServer> = Vec::new();
    servers.push(s);
    proof {
        assert(texts_view(s.urls@) =~= default_ice()[0].urls);
        assert(ice_servers_view(servers@) =~= default_ice());
    }
    servers
}

/// The position of the first comma from `from` on; the length where there is
/// none.
pub open spec fn comma_at(s: Seq<char>, from: int) -> int
    decreases s.len() - from,
{
    if from >= s.len() || s[from] == ',' {
        from
    } else {
        comma_at(s, from + 1)
    }
}

/// What a TURN option `url,username,credential` says. The credential is
/// everything behind the second comma; without two commas there is nothing.
pub open spec fn turn_of(s: Seq<char>) -> Option<IceServerView> {
    let a = comma_at(s, 0);
    let b = comma_at(s, a + 1);
    if a >= s.len() || b >= s.len() {
        None
    } else {
        Some(
            IceServerView {
                urls: seq![s.subrange(0, a)],
                username: Some(s.subrange(a + 1, b)),
                credential: Some(s.subrange(b + 1, s.len() as int)),
            },
        )
    }
}

fn find_comma(s: &[char], from: usize) -> (i: usize)
    requires
        from <= s@.len(),
    ensures
        i == comma_at(s@, from as int),
        from <= i <= s@.len(),
{
    let mut i: usize = from;
    while i < s.len() && s[i] != ','
        invariant
            from <= i <= s@.len(),
            comma_at(s@, i as int) == comma_at(s@, from as int),
        decreases s@.len() - i,
    {
        i = i + 1;
    }
    i
}

fn parse_turn(turn: &str) -> (server: Option<IceServer>)
    ensures
        match server {
            Some(s) => turn_of(turn@) == Some(s@),
            None => turn_of(turn@) is None,
        },
{
    let chars = chars_of(turn);
    let s = chars.as_slice();
    let a: usize = find_comma(s, 0);
    if a >= s.len() {
        return None;
    }
    let b: usize = find_comma(s, a + 1);
    if b >= s.len() {
        return None;
    }
    let mut urls: Vec<String> = Vec::new();
    urls.push(text_from(vstd::slice::slice_subrange(s, 0, a)));
    let username = text_from(vstd::slice::slice_subrange(s, a + 1, b));
    let credential = text_from(vstd::slice::slice_subrange(s, b + 1, s.len()));
    let server = IceServer { urls, username: Some(username), credential: Some(credential) };
    proof {
        assert(texts_view(server.urls@) =~= seq![turn@.subrange(0, a as int)]);
    }
    Some(server)
}

/// The servers of the command line: one entry for all STUN addresses, one per
/// TURN option, and the defaults where there is neither; `None` where a TURN
/// option is malformed.
pub open spec fn configured_ice(
    stun: Seq<Seq<char>>,
    turn: Seq<Seq<char>>,
) -> Option<Seq<IceServerView>> {
    if exists|i: int| 0 <= i < turn.len() && turn_of(#[trigger] turn[i]) is None {
        None
    } else if stun.len() == 0 && turn.len() == 0 {
        Some(default_ice())
    } else {
        let first = if stun.len() == 0 {
            Seq::<IceServerView>::empty()
        } else {
            seq![IceServerView { urls: stun, username: None, credential: None }]
        };
        Some(first + turn.map_values(|t: Seq<char>| turn_of(t)->Some_0))
    }
}

/// The servers a command line asks for; `None` where a TURN option is not
/// `url,username,credential`.
pub fn ice_servers_from(stun: Vec<String>, turn: &Vec<String>) -> (servers: Option<Vec<IceServer>>)
    ensures
        match servers {
            Some(s) => configured_ice(texts_view(stun@), texts_view(turn@)) == Some(
                ice_servers_view(s@),
            ),
            None => configured_ice(texts_view(stun@), texts_view(turn@)) is None,
        },
{
    let ghost stuns = texts_view(stun@);
    let ghost turns = texts_view(turn@);
    let ghost get = |t: Seq<char>| turn_of(t)->Some_0;
    let mut servers: Vec<IceServer> = Vec::new();
    if stun.len() > 0 {
        servers.push(IceServer { urls: stun, username: None, credential: None });
    }
    let ghost first = ice_servers_view(servers@);
    proof {
        assert(first =~= (if stuns.len() == 0 {
            Seq::<IceServerView>::empty()
        } else {
            seq![IceServerView { urls: stuns, username: None, credential: None }]
        }));
        assert(first =~= first + turns.take(0).map_values(get));
    }
    let mut i: usize = 0;
    while i < turn.len()
        invariant
            i <= turn@.len(),
            turns == texts_view(turn@),
            get == (|t: Seq<char>| turn_of(t)->Some_0),
            ice_servers_view(servers@) == first + turns.take(i as int).map_values(get),
            forall|k: int| 0 <= k < i ==> turn_of(#[trigger] turns[k]) is Some,
        decreases turn@.len() - i,
    {
        match parse_turn(turn[i].as_str()) {
            Some(s) => {
                let ghost before = servers@;
                servers.push(s);
                proof {
                    assert(ice_servers_view(servers@) =~= ice_servers_view(before).push(s@));
                    assert(turn_of(turns[i as int]) == Some(s@));
                    assert(first + turns.take(i + 1).map_values(get) =~= (first + turns.take(
                        i as int,
                    ).map_values(get)).push(s@));
                }
            },
            None => {
                assert(turn_of(turns[i as int]) is None);
                return None;
            },
        }
        i = i + 1;
    }
    proof {
        assert(turns.take(i as int) =~= turns);
    }
    if servers.len() == 0 {
        proof {
            assert(first.len() == 0);
            assert(turns.len() == 0) by {
                assert(ice_servers_view(servers@).len() == first.len() + turns.len());
            }
        }
        Some(default_ice_servers())
    } else {
        Some(servers)
    }
}

} // verus!
