//! The server's requests and replies as the signaling protocol carries them.
//! The protocol has no chat and no saves: those of the server's messages that
//! need them have no counterpart on the wire.
use vstd::prelude::*;
use crate::server::{
    members_view, starters_view, Member, MemberView, Reply, ReplyView, Request, RequestView,
    Starter, StarterView,
};
use crate::signaling::client_message::{
    ClientMessage, ClientMessageView, Msg as ClientMsg, MsgView as ClientMsgView,
};
use crate::signaling::codec::{decoded, encoded, law_decode_undoes_encode};
use crate::signaling::messages::{
    player_infos_view, start_players_view, Error, ErrorView, PeerLeft, PeerLeftView, PlayerInfo,
    PlayerInfoView, RoomCreated, RoomCreatedView, RoomJoined, RoomJoinedView, Roster, RosterView,
    Signal, SignalView, StartPlayer, StartPlayerView, Starting, StartingView,
};
use crate::signaling::server_message::{
    Msg as ServerMsg, MsgView as ServerMsgView, ServerMessage, ServerMessageView,
};
use crate::signaling::{decode, encode, kind_number};

verus! {

/// A position as a request names it: one past any room stays past it.
pub open spec fn position_of(peer: u32) -> u8 {
    if peer < 255 {
        peer as u8
    } else {
        255
    }
}

/// The request that a client's message is. There is none for an empty message,
/// nor for a kick, which this server does not know.
pub open spec fn request_of(m: ClientMessageView) -> Option<RequestView> {
    match m.msg {
        None => None,
        Some(ClientMsgView::CreateRoom(c)) => Some(
            RequestView::CreateRoom {
                protocol_version: c.protocol_version,
                nick: c.nick,
                rom_crc32: c.rom_crc32,
                rom_title: c.rom_title,
            },
        ),
        Some(ClientMsgView::JoinRoom(j)) => Some(
            RequestView::JoinRoom {
                protocol_version: j.protocol_version,
                code: j.code,
                nick: j.nick,
                rom_crc32: j.rom_crc32,
                rom_title: j.rom_title,
            },
        ),
        Some(ClientMsgView::SetReady(r)) => Some(
            RequestView::SetReady { ready: r.ready, save: None },
        ),
        Some(ClientMsgView::Start(_)) => Some(RequestView::Start),
        Some(ClientMsgView::Signal(s)) => Some(
            RequestView::Signal { to: position_of(s.peer), payload: s.payload },
        ),
        Some(ClientMsgView::Leave(_)) => Some(RequestView::Leave),
        Some(ClientMsgView::KickPlayer(_)) => None,
    }
}

/// The request in a binary frame; `None` where it holds none.
pub open spec fn request_in(bytes: Seq<u8>) -> Option<RequestView> {
    match decoded::<ClientMessage>(bytes) {
        Some(m) => request_of(m),
        None => None,
    }
}

/// The request in a binary frame.
pub fn read_request(bytes: &[u8]) -> (r: Option<Request>)
    ensures
        match r {
            Some(r) => request_in(bytes@) == Some(r@),
            None => request_in(bytes@) is None,
        },
{
    let m: ClientMessage = match decode::<ClientMessage>(bytes) {
        Ok(m) => m,
        Err(_) => {
            return None;
        },
    };
    match m.msg {
        None => None,
        Some(ClientMsg::CreateRoom(c)) => Some(
            Request::CreateRoom {
                protocol_version: c.protocol_version,
                nick: c.nick,
                rom_crc32: c.rom_crc32,
                rom_title: c.rom_title,
            },
        ),
        Some(ClientMsg::JoinRoom(j)) => Some(
            Request::JoinRoom {
                protocol_version: j.protocol_version,
                code: j.code,
                nick: j.nick,
                rom_crc32: j.rom_crc32,
                rom_title: j.rom_title,
            },
        ),
        Some(ClientMsg::SetReady(r)) => Some(Request::SetReady { ready: r.ready, save: None }),
        Some(ClientMsg::Start(_)) => Some(Request::Start),
        Some(ClientMsg::Signal(s)) => {
            let to: u8 = if s.peer < 255 {
                s.peer as u8
            } else {
                255
            };
            Some(Request::Signal { to, payload: s.payload })
        },
        Some(ClientMsg::Leave(_)) => Some(Request::Leave),
        Some(ClientMsg::KickPlayer(_)) => None,
    }
}

/// The roster as the protocol has it. This server keeps no seat tokens: a
/// member's position stands for theirs.
pub open spec fn infos_of(members: Seq<MemberView>) -> Seq<PlayerInfoView> {
    Seq::new(
        members.len(),
        |i: int|
            PlayerInfoView {
                nick: members[i].nick,
                ready: members[i].ready,
                rom_crc32: members[i].rom_crc32,
                rom_title: members[i].rom_title,
                seat: i as u32,
            },
    )
}

/// The members of a starting session as the protocol has them.
pub open spec fn start_players_of(starters: Seq<StarterView>) -> Seq<StartPlayerView> {
    starters.map_values(|s: StarterView| StartPlayerView { nick: s.nick, rom_crc32: s.rom_crc32 })
}

/// The message that a reply is. Rooms are cable rooms. There is none for a chat
/// line, which the protocol does not know, nor for a keepalive's answer, which
/// is text.
pub open spec fn message_of(r: ReplyView) -> Option<ServerMessageView> {
    let msg = match r {
        ReplyView::RoomCreated { code } => Some(ServerMsgView::RoomCreated(RoomCreatedView { code })),
        ReplyView::RoomJoined { code } => Some(ServerMsgView::RoomJoined(RoomJoinedView { code })),
        ReplyView::Roster { players, your_idx } => Some(
            ServerMsgView::Roster(
                RosterView {
                    players: infos_of(players),
                    your_idx: your_idx as u32,
                    wireless: false,
                },
            ),
        ),
        ReplyView::Starting { players, your_idx, .. } => Some(
            ServerMsgView::Starting(
                StartingView { players: start_players_of(players), your_idx: your_idx as u32 },
            ),
        ),
        ReplyView::Signal { from, payload } => Some(
            ServerMsgView::Signal(SignalView { peer: from as u32, payload }),
        ),
        ReplyView::PeerLeft { player_idx } => Some(
            ServerMsgView::PeerLeft(PeerLeftView { player_idx: player_idx as u32 }),
        ),
        ReplyView::Error { kind, message } => Some(
            ServerMsgView::Error(ErrorView { kind: kind_number(kind), message }),
        ),
        ReplyView::Chat { .. } => None,
        ReplyView::Pong => None,
    };
    match msg {
        Some(m) => Some(ServerMessageView { msg: Some(m) }),
        None => None,
    }
}

fn infos(members: Vec<Member>) -> (players: Vec<PlayerInfo>)
    ensures
        player_infos_view(players@) == infos_of(members_view(members@)),
{
    let ghost all = infos_of(members_view(members@));
    let mut players: Vec<PlayerInfo> = Vec::new();
    let mut i: usize = 0;
    while i < members.len()
        invariant
            i <= members@.len(),
            all == infos_of(members_view(members@)),
            player_infos_view(players@) == all.take(i as int),
        decreases members@.len() - i,
    {
        let m = &members[i];
        let p = PlayerInfo {
            nick: m.nick.clone(),
            ready: m.ready,
            rom_crc32: m.rom_crc32,
            rom_title: m.rom_title.clone(),
            seat: i as u32,
        };
        let ghost before = players@;
        players.push(p);
        proof {
            assert(p@ == all[i as int]);
            assert(player_infos_view(players@) =~= player_infos_view(before).push(p@));
            assert(all.take(i + 1) =~= all.take(i as int).push(all[i as int]));
        }
        i = i + 1;
    }
    assert(all.take(i as int) =~= all);
    players
}

fn start_players(starters: Vec<Starter>) -> (players: Vec<StartPlayer>)
    ensures
        start_players_view(players@) == start_players_of(starters_view(starters@)),
{
    let ghost all = start_players_of(starters_view(starters@));
    let mut players: Vec<StartPlayer> = Vec::new();
    let mut i: usize = 0;
    while i < starters.len()
        invariant
            i <= starters@.len(),
            all == start_players_of(starters_view(starters@)),
            start_players_view(players@) == all.take(i as int),
        decreases starters@.len() - i,
    {
        let p = StartPlayer { nick: starters[i].nick.clone(), rom_crc32: starters[i].rom_crc32 };
        let ghost before = players@;
        players.push(p);
        proof {
            assert(p@ == all[i as int]);
            assert(start_players_view(players@) =~= start_players_view(before).push(p@));
            assert(all.take(i + 1) =~= all.take(i as int).push(all[i as int]));
        }
        i = i + 1;
    }
    assert(all.take(i as int) =~= all);
    players
}

fn message(reply: Reply) -> (m: Option<ServerMessage>)
    ensures
        match m {
            Some(m) => message_of(reply@) == Some(m@),
            None => message_of(reply@) is None,
        },
{
    let msg = match reply {
        Reply::RoomCreated { code } => ServerMsg::RoomCreated(RoomCreated { code }),
        Reply::RoomJoined { code } => ServerMsg::RoomJoined(RoomJoined { code }),
        Reply::Roster { players, your_idx } => ServerMsg::Roster(
            Roster { players: infos(players), your_idx: your_idx as u32, wireless: false },
        ),
        Reply::Starting { players, your_idx, .. } => ServerMsg::Starting(
            Starting { players: start_players(players), your_idx: your_idx as u32 },
        ),
        Reply::Signal { from, payload } => ServerMsg::Signal(
            Signal { peer: from as u32, payload },
        ),
        Reply::PeerLeft { player_idx } => ServerMsg::PeerLeft(
            PeerLeft { player_idx: player_idx as u32 },
        ),
        Reply::Error { kind, message } => ServerMsg::Error(
            Error { kind: kind.number(), message },
        ),
        Reply::Chat { .. } => {
            return None;
        },
        Reply::Pong => {
            return None;
        },
    };
    Some(ServerMessage { msg: Some(msg) })
}

/// A frame to send.
#[derive(Debug, Clone, PartialEq, Eq)]
pub enum Packet {
    Binary(Vec<u8>),
    Text(String),
}

/// What a [`Packet`] says.
#[verifier::ext_equal]
pub enum PacketView {
    Binary(Seq<u8>),
    Text(Seq<char>),
}

impl View for Packet {
    type V = PacketView;

    open spec fn view(&self) -> PacketView {
        match *self {
            Packet::Binary(b) => PacketView::Binary(b@),
            Packet::Text(t) => PacketView::Text(t@),
        }
    }
}

/// The frame that carries a reply, where one does: a message as its bytes, and a
/// keepalive's answer as text.
pub open spec fn packet_of(r: ReplyView) -> Option<PacketView> {
    match message_of(r) {
        Some(m) => Some(PacketView::Binary(encoded::<ServerMessage>(m))),
        None => if r is Pong {
            Some(PacketView::Text("pong"@))
        } else {
            None
        },
    }
}

/// The frame that carries a reply, where one does.
pub fn write_reply(reply: Reply) -> (p: Option<Packet>)
    ensures
        match p {
            Some(p) => packet_of(reply@) == Some(p@),
            None => packet_of(reply@) is None,
        },
{
    let pong = match &reply {
        Reply::Pong => true,
        _ => false,
    };
    match message(reply) {
        Some(m) => Some(Packet::Binary(encode(&m))),
        None => if pong {
            Some(Packet::Text("pong".to_owned()))
        } else {
            None
        },
    }
}

/// What a client puts on the wire is the request it meant.
pub proof fn law_requests_arrive(m: ClientMessageView)
    requires
        encoded::<ClientMessage>(m).len() <= u64::MAX,
    ensures
        request_in(encoded::<ClientMessage>(m)) == request_of(m),
{
    law_decode_undoes_encode::<ClientMessage>(m);
}

/// A client reads off the wire what the reply says.
pub proof fn law_replies_arrive(r: ReplyView, m: ServerMessageView)
    requires
        message_of(r) == Some(m),
        encoded::<ServerMessage>(m).len() <= u64::MAX,
    ensures
        packet_of(r) matches Some(PacketView::Binary(b)) && decoded::<ServerMessage>(b) == Some(m),
{
    law_decode_undoes_encode::<ServerMessage>(m);
}

} // verus!
