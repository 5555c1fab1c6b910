//! The signaling protocol: room-based rendezvous for rollback sessions, up to
//! [`MAX_CABLE_PLAYERS`] on a cable chain and up to [`MAX_WIRELESS_PLAYERS`]
//! on a wireless room's shared airwaves. Rooms hold dynamic membership:
//! players join and leave at any time, and the room (re-)merges per its
//! peripheral's policy.
//!
//! The wire format is protobuf. Transport: WebSocket binary messages, each
//! one [`ClientMessage`] or [`ServerMessage`].
use vstd::prelude::*;
use crate::text::{ascii_upper, char_ascii_upper, chars_of, text_from, trim, trimmed};

pub mod client_message;
pub mod codec;
pub mod laws;
pub mod messages;
pub mod server_message;
pub mod wire;

pub use crate::signaling::client_message::{ClientMessage, ClientMessageView};
pub use crate::signaling::codec::{DecodeError, Message, Readable};
pub use crate::signaling::messages::{
    CreateRoom, CreateRoomView, Error, ErrorView, Hello, HelloView, IceServer, IceServerView,
    JoinRoom, JoinRoomView, KickPlayer, KickPlayerView, Leave, LeaveView, PeerLeft, PeerLeftView,
    PlayerInfo, PlayerInfoView, RoomCreated, RoomCreatedView, RoomJoined, RoomJoinedView, Roster,
    RosterView, SetReady, SetReadyView, Signal, SignalView, Start, StartPlayer, StartPlayerView,
    StartView, Starting, StartingView,
};
pub use crate::signaling::server_message::{ServerMessage, ServerMessageView};
use crate::signaling::codec::{decode_message, decoded, encode_message, encoded};
use crate::signaling::messages::{ice_servers_view, player_infos_view, start_players_view};

verus! {

/// Bumped on any incompatible protocol change. Carried on the first message
/// (create/join); the server rejects mismatches.
pub const PROTOCOL_VERSION: u32 = 5;

/// Most players a cable room holds: the size of a real multi-cable chain.
pub const MAX_CABLE_PLAYERS: usize = 4;

/// Most players a wireless room holds: one full group, a host plus its four
/// clients.
pub const MAX_WIRELESS_PLAYERS: usize = 5;

/// The capacity of a room with the given peripheral.
pub fn max_players(wireless: bool) -> (n: usize)
    ensures
        n == if wireless {
            MAX_WIRELESS_PLAYERS
        } else {
            MAX_CABLE_PLAYERS
        },
{
    if wireless {
        MAX_WIRELESS_PLAYERS
    } else {
        MAX_CABLE_PLAYERS
    }
}

/// Length of a generated room code.
pub const ROOM_CODE_LEN: usize = 6;

/// Alphabet room codes are drawn from (unambiguous subset): the digits 2 to 9
/// and the capitals without I, L and O.
pub const ROOM_CODE_ALPHABET: [char; 31] = [
    '2',
    '3',
    '4',
    '5',
    '6',
    '7',
    '8',
    '9',
    'A',
    'B',
    'C',
    'D',
    'E',
    'F',
    'G',
    'H',
    'J',
    'K',
    'M',
    'N',
    'P',
    'Q',
    'R',
    'S',
    'T',
    'U',
    'V',
    'W',
    'X',
    'Y',
    'Z',
];

/// A code a room can have: six characters of the alphabet.
pub open spec fn is_room_code(code: Seq<char>) -> bool {
    &&& code.len() == ROOM_CODE_LEN
    &&& forall|i: int| 0 <= i < code.len() ==> ROOM_CODE_ALPHABET@.contains(#[trigger] code[i])
}

/// Why a request was refused.
#[derive(Debug, Clone, Copy, PartialEq, Eq, Structural)]
pub enum ErrorKind {
    Unspecified,
    ProtocolVersionMismatch,
    RoomNotFound,
    RoomFull,
    RoomAlreadyStarted,
    NotHost,
    NotEveryoneReady,
    Malformed,
    Internal,
    Kicked,
}

/// An error kind by number.
pub open spec fn kind_number(kind: ErrorKind) -> i32 {
    match kind {
        ErrorKind::Unspecified => 0,
        ErrorKind::ProtocolVersionMismatch => 1,
        ErrorKind::RoomNotFound => 2,
        ErrorKind::RoomFull => 3,
        ErrorKind::RoomAlreadyStarted => 4,
        ErrorKind::NotHost => 5,
        ErrorKind::NotEveryoneReady => 6,
        ErrorKind::Malformed => 7,
        ErrorKind::Internal => 8,
        ErrorKind::Kicked => 9,
    }
}

/// The error kind of a number; an unassigned number says nothing.
pub open spec fn kind_of(number: i32) -> ErrorKind {
    if number == 1 {
        ErrorKind::ProtocolVersionMismatch
    } else if number == 2 {
        ErrorKind::RoomNotFound
    } else if number == 3 {
        ErrorKind::RoomFull
    } else if number == 4 {
        ErrorKind::RoomAlreadyStarted
    } else if number == 5 {
        ErrorKind::NotHost
    } else if number == 6 {
        ErrorKind::NotEveryoneReady
    } else if number == 7 {
        ErrorKind::Malformed
    } else if number == 8 {
        ErrorKind::Internal
    } else if number == 9 {
        ErrorKind::Kicked
    } else {
        ErrorKind::Unspecified
    }
}

/// Every kind is told from its number.
pub proof fn law_error_kinds_are_told_from_their_numbers(kind: ErrorKind)
    ensures
        kind_of(kind_number(kind)) == kind,
{
}

impl ErrorKind {
    pub fn number(self) -> (n: i32)
        ensures
            n == kind_number(self),
    {
        match self {
            ErrorKind::Unspecified => 0,
            ErrorKind::ProtocolVersionMismatch => 1,
            ErrorKind::RoomNotFound => 2,
            ErrorKind::RoomFull => 3,
            ErrorKind::RoomAlreadyStarted => 4,
            ErrorKind::NotHost => 5,
            ErrorKind::NotEveryoneReady => 6,
            ErrorKind::Malformed => 7,
            ErrorKind::Internal => 8,
            ErrorKind::Kicked => 9,
        }
    }
}

impl Error {
    pub fn kind(&self) -> (kind: ErrorKind)
        ensures
            kind == kind_of(self.kind),
    {
        match self.kind {
            1 => ErrorKind::ProtocolVersionMismatch,
            2 => ErrorKind::RoomNotFound,
            3 => ErrorKind::RoomFull,
            4 => ErrorKind::RoomAlreadyStarted,
            5 => ErrorKind::NotHost,
            6 => ErrorKind::NotEveryoneReady,
            7 => ErrorKind::Malformed,
            8 => ErrorKind::Internal,
            9 => ErrorKind::Kicked,
            _ => ErrorKind::Unspecified,
        }
    }
}

/// A message on the wire.
pub fn encode<T: Message>(msg: &T) -> (bytes: Vec<u8>)
    ensures
        bytes@ == encoded::<T>(msg@),
{
    encode_message(msg)
}

/// The message a byte string holds.
pub fn decode<T: Message>(bytes: &[u8]) -> (r: Result<T, DecodeError>)
    ensures
        match r {
            Ok(m) => decoded::<T>(bytes@) == Some(m@),
            Err(_) => decoded::<T>(bytes@) is None,
        },
{
    match decode_message(bytes) {
        Some(m) => Ok(m),
        None => Err(DecodeError),
    }
}

/// A code as it is looked up: without the white space around it, ASCII letters
/// in upper case.
pub open spec fn normalized_code(code: Seq<char>) -> Seq<char> {
    trimmed(code).map_values(|c: char| ascii_upper(c))
}

/// Normalize a user-typed room code for lookup.
pub fn normalize_room_code(code: &str) -> (normal: String)
    ensures
        normal@ == normalized_code(code@),
{
    let chars = chars_of(code);
    let t = trim(chars.as_slice());
    let mut upper: Vec<char> = Vec::new();
    let mut i: usize = 0;
    while i < t.len()
        invariant
            i <= t@.len(),
            upper@ == t@.take(i as int).map_values(|c: char| ascii_upper(c)),
        decreases t@.len() - i,
    {
        upper.push(char_ascii_upper(t[i]));
        i = i + 1;
        assert(upper@ =~= t@.take(i as int).map_values(|c: char| ascii_upper(c)));
    }
    assert(t@.take(i as int) =~= t@);
    text_from(upper.as_slice())
}

/// Normalizing a code twice is normalizing it once.
pub proof fn law_normalizing_twice_is_normalizing_once(code: Seq<char>)
    ensures
        normalized_code(normalized_code(code)) == normalized_code(code),
{
    let up = |c: char| ascii_upper(c);
    let t = trimmed(code);
    let n = normalized_code(code);
    crate::text::lemma_trim_again(code);
    assert(trimmed(n) == n) by {
        if n.len() > 0 {
            assert(!crate::text::is_space(n[0]));
            assert(n.last() == ascii_upper(t.last()));
            assert(!crate::text::is_space(n.last()));
        }
    }
    assert(n.map_values(up) =~= n);
}

/// A code out of the alphabet is its own normal form.
pub proof fn law_room_codes_are_normal(code: Seq<char>)
    requires
        is_room_code(code),
    ensures
        normalized_code(code) == code,
{
    assert forall|i: int| 0 <= i < code.len() implies !crate::text::is_space(#[trigger] code[i])
        && ascii_upper(code[i]) == code[i] by {
        assert(ROOM_CODE_ALPHABET@.contains(code[i]));
    }
    assert(!crate::text::is_space(code[0]));
    assert(!crate::text::is_space(code[code.len() - 1]));
    assert(trimmed(code) == code);
    assert(code.map_values(|c: char| ascii_upper(c)) =~= code);
}

impl ClientMessage {
    pub fn create_room(nick: &str, rom_crc32: u32, rom_title: &str, wireless: bool) -> (m: Self)
        ensures
            m@.msg == Some(
                client_message::MsgView::CreateRoom(
                    CreateRoomView {
                        protocol_version: PROTOCOL_VERSION,
                        nick: nick@,
                        rom_crc32,
                        rom_title: rom_title@,
                        wireless,
                    },
                ),
            ),
    {
        ClientMessage {
            msg: Some(
                client_message::Msg::CreateRoom(
                    CreateRoom {
                        protocol_version: PROTOCOL_VERSION,
                        nick: nick.to_owned(),
                        rom_crc32,
                        rom_title: rom_title.to_owned(),
                        wireless,
                    },
                ),
            ),
        }
    }

    pub fn join_room(code: &str, nick: &str, rom_crc32: u32, rom_title: &str) -> (m: Self)
        ensures
            m@.msg == Some(
                client_message::MsgView::JoinRoom(
                    JoinRoomView {
                        protocol_version: PROTOCOL_VERSION,
                        code: code@,
                        nick: nick@,
                        rom_crc32,
                        rom_title: rom_title@,
                    },
                ),
            ),
    {
        ClientMessage {
            msg: Some(
                client_message::Msg::JoinRoom(
                    JoinRoom {
                        protocol_version: PROTOCOL_VERSION,
                        code: code.to_owned(),
                        nick: nick.to_owned(),
                        rom_crc32,
                        rom_title: rom_title.to_owned(),
                    },
                ),
            ),
        }
    }

    pub fn set_ready(ready: bool) -> (m: Self)
        ensures
            m@.msg == Some(client_message::MsgView::SetReady(SetReadyView { ready })),
    {
        ClientMessage { msg: Some(client_message::Msg::SetReady(SetReady { ready })) }
    }

    /// Position 0 only, cable rooms only: link the room up (again).
    pub fn start() -> (m: Self)
        ensures
            m@.msg == Some(client_message::MsgView::Start(StartView {  })),
    {
        ClientMessage { msg: Some(client_message::Msg::Start(Start {  })) }
    }

    /// A signal for the server to relay to player `to`.
    pub fn signal(to: u32, payload: Vec<u8>) -> (m: Self)
        ensures
            m@.msg == Some(
                client_message::MsgView::Signal(SignalView { peer: to, payload: payload@ }),
            ),
    {
        ClientMessage { msg: Some(client_message::Msg::Signal(Signal { peer: to, payload })) }
    }

    pub fn leave() -> (m: Self)
        ensures
            m@.msg == Some(client_message::MsgView::Leave(LeaveView {  })),
    {
        ClientMessage { msg: Some(client_message::Msg::Leave(Leave {  })) }
    }

    /// Host only: throw the player holding `seat` (the stable roster token,
    /// not the compacting position) out of the lobby.
    pub fn kick_player(seat: u32) -> (m: Self)
        ensures
            m@.msg == Some(client_message::MsgView::KickPlayer(KickPlayerView { seat })),
    {
        ClientMessage { msg: Some(client_message::Msg::KickPlayer(KickPlayer { seat })) }
    }
}

impl ServerMessage {
    pub fn hello(ice_servers: Vec<IceServer>) -> (m: Self)
        ensures
            m@.msg == Some(
                server_message::MsgView::Hello(
                    HelloView { ice_servers: ice_servers_view(ice_servers@) },
                ),
            ),
    {
        ServerMessage { msg: Some(server_message::Msg::Hello(Hello { ice_servers })) }
    }

    pub fn room_created(code: &str) -> (m: Self)
        ensures
            m@.msg == Some(server_message::MsgView::RoomCreated(RoomCreatedView { code: code@ })),
    {
        ServerMessage {
            msg: Some(server_message::Msg::RoomCreated(RoomCreated { code: code.to_owned() })),
        }
    }

    pub fn room_joined(code: &str) -> (m: Self)
        ensures
            m@.msg == Some(server_message::MsgView::RoomJoined(RoomJoinedView { code: code@ })),
    {
        ServerMessage {
            msg: Some(server_message::Msg::RoomJoined(RoomJoined { code: code.to_owned() })),
        }
    }

    pub fn roster(players: Vec<PlayerInfo>, your_idx: u32, wireless: bool) -> (m: Self)
        ensures
            m@.msg == Some(
                server_message::MsgView::Roster(
                    RosterView { players: player_infos_view(players@), your_idx, wireless },
                ),
            ),
    {
        ServerMessage {
            msg: Some(server_message::Msg::Roster(Roster { players, your_idx, wireless })),
        }
    }

    pub fn starting(players: Vec<StartPlayer>, your_idx: u32) -> (m: Self)
        ensures
            m@.msg == Some(
                server_message::MsgView::Starting(
                    StartingView { players: start_players_view(players@), your_idx },
                ),
            ),
    {
        ServerMessage { msg: Some(server_message::Msg::Starting(Starting { players, your_idx })) }
    }

    /// A signal relayed onward, stamped with the sender `from`.
    pub fn signal(from: u32, payload: Vec<u8>) -> (m: Self)
        ensures
            m@.msg == Some(
                server_message::MsgView::Signal(SignalView { peer: from, payload: payload@ }),
            ),
    {
        ServerMessage { msg: Some(server_message::Msg::Signal(Signal { peer: from, payload })) }
    }

    pub fn peer_left(player_idx: u32) -> (m: Self)
        ensures
            m@.msg == Some(server_message::MsgView::PeerLeft(PeerLeftView { player_idx })),
    {
        ServerMessage { msg: Some(server_message::Msg::PeerLeft(PeerLeft { player_idx })) }
    }

    pub fn error(kind: ErrorKind, message: &str) -> (m: Self)
        ensures
            m@.msg == Some(
                server_message::MsgView::Error(
                    ErrorView { kind: kind_number(kind), message: message@ },
                ),
            ),
    {
        ServerMessage {
            msg: Some(
                server_message::Msg::Error(
                    Error { kind: kind.number(), message: message.to_owned() },
                ),
            ),
        }
    }
}

} // verus!
