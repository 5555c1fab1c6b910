//! What comes of each request, said of the rooms and of who is sent what.
use vstd::prelude::*;
use crate::server::wire::{message_of, packet_of, request_of, PacketView};
use crate::server::{
    blob_view, configured_ice, default_ice, frame_step, left, members_view, replies_view, room_at,
    rooms_map, seat_of, shown_nick, starters_view, to_all, turn_of, Frame, Outcome, PlayerView,
    Reply, ReplyView, Request, Room, RoomView,
};
use crate::signaling::client_message::{ClientMessage, Msg as ClientMsg};
use crate::signaling::server_message::{Msg as ServerMsg, ServerMessage};
use crate::signaling::{normalized_code, ErrorKind, IceServerView};
use crate::text::trimmed;

verus! {

/// Whether this is what comes of a frame, and these are the replies sent for
/// it.
pub open spec fn comes_of(
    rooms: Map<Seq<char>, RoomView>,
    member: Option<Seq<char>>,
    conn: u64,
    frame: Frame,
    fresh: Seq<char>,
    clock: u64,
    max_save: nat,
    o: Outcome,
    sent: Seq<(u64, Reply)>,
) -> bool {
    &&& o == frame_step(rooms, member, conn, frame, fresh, clock, max_save)
    &&& replies_view(sent) == o.sent
}

/// Whether a connection plays at a position, and at none before it.
pub open spec fn sits_at(players: Seq<PlayerView>, conn: u64, at: int) -> bool {
    &&& 0 <= at < players.len()
    &&& players[at].conn == conn && !players[at].gone
    &&& forall|i: int| 0 <= i < at ==> (#[trigger] players[i]).conn != conn || players[i].gone
}

/// Whether a reply is the roster of some players as the one at a position sees
/// it.
pub open spec fn is_roster(r: Reply, players: Seq<PlayerView>, at: int) -> bool {
    &&& r matches Reply::Roster { players: listed, your_idx }
    &&& your_idx == at
    &&& listed@.len() == players.len()
    &&& forall|i: int|
        0 <= i < players.len() ==> {
            &&& (#[trigger] listed@[i]).nick@ == players[i].nick
            &&& listed@[i].ready == players[i].ready
            &&& listed@[i].rom_crc32 == players[i].rom_crc32
            &&& listed@[i].rom_title@ == players[i].rom_title
        }
}

/// Whether every player is sent the roster, in their order, from a position in
/// the replies on.
pub open spec fn all_see_the_roster(
    sent: Seq<(u64, Reply)>,
    from: int,
    players: Seq<PlayerView>,
) -> bool {
    &&& sent.len() == from + players.len()
    &&& forall|i: int|
        0 <= i < players.len() ==> (#[trigger] players[i]).conn == sent[from + i].0 && is_roster(
            sent[from + i].1,
            players,
            i,
        )
}

proof fn lemma_seat_is(players: Seq<PlayerView>, conn: u64, at: int)
    requires
        sits_at(players, conn, at),
    ensures
        seat_of(players, conn) == at,
    decreases players.len(),
{
    if at > 0 {
        assert(players[0].conn != conn || players[0].gone);
        let rest = players.skip(1);
        assert forall|i: int| 0 <= i < at - 1 implies (#[trigger] rest[i]).conn != conn
            || rest[i].gone by {
            assert(players[i + 1].conn != conn || players[i + 1].gone);
        }
        lemma_seat_is(rest, conn, at - 1);
    }
}

proof fn lemma_no_seat(players: Seq<PlayerView>, conn: u64)
    requires
        forall|i: int|
            0 <= i < players.len() ==> (#[trigger] players[i]).conn != conn || players[i].gone,
    ensures
        seat_of(players, conn) == players.len(),
    decreases players.len(),
{
    if players.len() > 0 {
        let rest = players.skip(1);
        assert forall|i: int| 0 <= i < rest.len() implies (#[trigger] rest[i]).conn != conn
            || rest[i].gone by {
            assert(players[i + 1].conn != conn || players[i + 1].gone);
        }
        assert(players[0].conn != conn || players[0].gone);
        lemma_no_seat(rest, conn);
    }
}

proof fn lemma_rosters_are_seen(
    sent: Seq<(u64, Reply)>,
    head: Seq<(u64, ReplyView)>,
    players: Seq<PlayerView>,
)
    requires
        replies_view(sent) == head + crate::server::rosters(players),
        players.len() <= 255,
    ensures
        all_see_the_roster(sent, head.len() as int, players),
        forall|k: int| 0 <= k < head.len() ==> head[k] == (sent[k].0, (#[trigger] sent[k]).1@),
{
    let rs = crate::server::rosters(players);
    let n = head.len() as int;
    assert(replies_view(sent).len() == sent.len());
    assert forall|i: int| 0 <= i < players.len() implies (#[trigger] players[i]).conn == sent[n
        + i].0 && is_roster(sent[n + i].1, players, i) by {
        assert(replies_view(sent)[n + i] == (sent[n + i].0, sent[n + i].1@));
        assert((head + rs)[n + i] == rs[i]);
        let listed = sent[n + i].1->Roster_players@;
        assert(members_view(listed) == crate::server::roster_of(players));
        assert(members_view(listed).len() == listed.len());
        assert forall|k: int| 0 <= k < players.len() implies {
            &&& (#[trigger] listed[k]).nick@ == players[k].nick
            &&& listed[k].ready == players[k].ready
            &&& listed[k].rom_crc32 == players[k].rom_crc32
            &&& listed[k].rom_title@ == players[k].rom_title
        } by {
            assert(members_view(listed)[k] == listed[k]@);
            assert(crate::server::roster_of(players)[k] == crate::server::member_of(players[k]));
        }
    }
    assert forall|k: int| 0 <= k < head.len() implies head[k] == (
        sent[k].0,
        (#[trigger] sent[k]).1@,
    ) by {
        assert(replies_view(sent)[k] == (sent[k].0, sent[k].1@));
        assert((head + rs)[k] == head[k]);
    }
}

proof fn lemma_one_reply(sent: Seq<(u64, Reply)>, r: (u64, ReplyView))
    requires
        replies_view(sent) == seq![r],
    ensures
        sent.len() == 1,
        r == (sent[0].0, sent[0].1@),
{
    assert(replies_view(sent).len() == sent.len());
    assert(replies_view(sent)[0] == (sent[0].0, sent[0].1@));
}

/// Whether the only reply is an error of a kind to one connection, and nothing
/// changed.
pub open spec fn only_refused(
    rooms: Map<Seq<char>, RoomView>,
    member: Option<Seq<char>>,
    o: Outcome,
    sent: Seq<(u64, Reply)>,
    conn: u64,
    kind: ErrorKind,
) -> bool {
    &&& o.rooms == rooms
    &&& o.member == member
    &&& sent.len() == 1
    &&& sent[0].0 == conn
    &&& sent[0].1 matches Reply::Error { kind: k, .. } && k == kind
}

/// Whether nothing happened at all.
pub open spec fn nothing_happened(
    rooms: Map<Seq<char>, RoomView>,
    member: Option<Seq<char>>,
    o: Outcome,
    sent: Seq<(u64, Reply)>,
) -> bool {
    o.rooms == rooms && o.member == member && sent.len() == 0 && o.open
}

/// The rooms by code are the rooms there are: each under its own code, as it
/// is, and no others.
pub proof fn law_rooms_are_found_by_code(rooms: Seq<Room>, code: Seq<char>, i: int)
    requires
        forall|a: int, b: int|
            0 <= a < b < rooms.len() ==> (#[trigger] rooms[a]).code@ != (#[trigger] rooms[b]).code@,
        0 <= i < rooms.len(),
    ensures
        rooms_map(rooms).contains_key(rooms[i].code@),
        rooms_map(rooms)[rooms[i].code@] == rooms[i]@,
        rooms[i]@.started == rooms[i].started,
        rooms[i]@.players.len() == rooms[i].players@.len(),
        rooms_map(rooms).contains_key(code) <==> exists|k: int|
            0 <= k < rooms.len() && (#[trigger] rooms[k]).code@ == code,
{
    lemma_room_found(rooms, rooms[i].code@);
    lemma_room_found(rooms, code);
    let at = room_at(rooms, rooms[i].code@) as int;
    if at < i {
        assert(rooms[at].code@ != rooms[i].code@);
    } else if i < at {
        assert(rooms[i].code@ != rooms[at].code@);
    }
}

proof fn lemma_room_found(rooms: Seq<Room>, code: Seq<char>)
    ensures
        room_at(rooms, code) < rooms.len() ==> rooms[room_at(rooms, code) as int].code@ == code,
        room_at(rooms, code) < rooms.len() <==> exists|k: int|
            0 <= k < rooms.len() && (#[trigger] rooms[k]).code@ == code,
    decreases rooms.len(),
{
    if rooms.len() > 0 && rooms[0].code@ != code {
        let rest = rooms.skip(1);
        lemma_room_found(rest, code);
        if exists|k: int| 0 <= k < rooms.len() && (#[trigger] rooms[k]).code@ == code {
            let k = choose|k: int| 0 <= k < rooms.len() && (#[trigger] rooms[k]).code@ == code;
            assert(rest[k - 1].code@ == code);
        }
        if exists|k: int| 0 <= k < rest.len() && (#[trigger] rest[k]).code@ == code {
            let k = choose|k: int| 0 <= k < rest.len() && (#[trigger] rest[k]).code@ == code;
            assert(rooms[k + 1].code@ == code);
        }
    } else if rooms.len() > 0 {
        assert(rooms[0].code@ == code);
    }
}

// ---------------------------------------------------------------------
// Entering
// ---------------------------------------------------------------------

/// Creating a room opens one under the fresh code, with whoever asked as its
/// only player, not ready, under their nick and with the cart they named. They
/// hear the code, then the roster. Every other room stays as it was.
pub proof fn law_creating_a_room(
    rooms: Map<Seq<char>, RoomView>,
    conn: u64,
    nick: String,
    rom_crc32: u32,
    rom_title: String,
    fresh: Seq<char>,
    clock: u64,
    max_save: nat,
    o: Outcome,
    sent: Seq<(u64, Reply)>,
    other: Seq<char>,
)
    requires
        comes_of(
            rooms,
            None,
            conn,
            Frame::Binary(
                Some(Request::CreateRoom { protocol_version: 5, nick, rom_crc32, rom_title }),
            ),
            fresh,
            clock,
            max_save,
            o,
            sent,
        ),
        other != fresh,
    ensures
        o.open,
        o.member == Some(fresh),
        o.rooms.contains_key(fresh),
        !o.rooms[fresh].started,
        o.rooms[fresh].players.len() == 1,
        ({
            let p = o.rooms[fresh].players[0];
            &&& p.conn == conn
            &&& p.nick == shown_nick(nick@)
            &&& p.rom_crc32 == rom_crc32
            &&& p.rom_title == rom_title@
            &&& !p.ready
            &&& p.save is None
            &&& !p.gone
        }),
        sent[0].0 == conn,
        sent[0].1 matches Reply::RoomCreated { code } && code@ == fresh,
        all_see_the_roster(sent, 1, o.rooms[fresh].players),
        o.rooms.contains_key(other) <==> rooms.contains_key(other),
        rooms.contains_key(other) ==> o.rooms[other] == rooms[other],
{
    let p = o.rooms[fresh].players[0];
    let head = seq![(conn, ReplyView::RoomCreated { code: fresh })];
    assert(o.rooms[fresh].players =~= seq![p]);
    lemma_rosters_are_seen(sent, head, seq![p]);
    assert(head[0] == (sent[0].0, sent[0].1@));
}

/// Joining a room that is there, has not started and has a seat left puts
/// whoever asked in the last seat, as they would create a room. Everyone else
/// keeps their seat and everything but their readiness and save. The newcomer
/// hears the code as the room has it, and everyone the roster.
pub proof fn law_joining_a_room(
    rooms: Map<Seq<char>, RoomView>,
    conn: u64,
    typed: String,
    nick: String,
    rom_crc32: u32,
    rom_title: String,
    fresh: Seq<char>,
    clock: u64,
    max_save: nat,
    o: Outcome,
    sent: Seq<(u64, Reply)>,
    i: int,
    other: Seq<char>,
)
    requires
        comes_of(
            rooms,
            None,
            conn,
            Frame::Binary(
                Some(
                    Request::JoinRoom { protocol_version: 5, code: typed, nick, rom_crc32, rom_title },
                ),
            ),
            fresh,
            clock,
            max_save,
            o,
            sent,
        ),
        rooms.contains_key(normalized_code(typed@)),
        !rooms[normalized_code(typed@)].started,
        rooms[normalized_code(typed@)].players.len() < 4,
        other != normalized_code(typed@),
    ensures
        ({
            let code = normalized_code(typed@);
            let was = rooms[code].players;
            let now = o.rooms[code].players;
            &&& o.open
            &&& o.member == Some(code)
            &&& o.rooms.contains_key(code) && !o.rooms[code].started
            &&& now.len() == was.len() + 1
            &&& 0 <= i < was.len() ==> now[i] == (PlayerView { ready: false, save: None, ..was[i] })
            &&& now.last().conn == conn
            &&& now.last().nick == shown_nick(nick@)
            &&& now.last().rom_crc32 == rom_crc32
            &&& now.last().rom_title == rom_title@
            &&& !now.last().ready && now.last().save is None && !now.last().gone
            &&& sent[0].0 == conn
            &&& sent[0].1 matches Reply::RoomJoined { code: c } && c@ == code
            &&& all_see_the_roster(sent, 1, now)
        }),
        o.rooms.contains_key(other) <==> rooms.contains_key(other),
        rooms.contains_key(other) ==> o.rooms[other] == rooms[other],
{
    let code = normalized_code(typed@);
    let head = seq![(conn, ReplyView::RoomJoined { code })];
    lemma_rosters_are_seen(sent, head, o.rooms[code].players);
    assert(head[0] == (sent[0].0, sent[0].1@));
}

/// What keeps someone out of a room. Who is in one already is told so first;
/// then the protocol must match, and a connection that speaks another is
/// closed; then the room must be there, not have started, and have fewer than
/// four players.
pub proof fn law_what_keeps_players_out(
    rooms: Map<Seq<char>, RoomView>,
    member: Option<Seq<char>>,
    conn: u64,
    request: Request,
    fresh: Seq<char>,
    clock: u64,
    max_save: nat,
    o: Outcome,
    sent: Seq<(u64, Reply)>,
)
    requires
        comes_of(
            rooms,
            member,
            conn,
            Frame::Binary(Some(request)),
            fresh,
            clock,
            max_save,
            o,
            sent,
        ),
        request is CreateRoom || request is JoinRoom,
    ensures
        ({
            let version = match request {
                Request::CreateRoom { protocol_version, .. } => protocol_version,
                Request::JoinRoom { protocol_version, .. } => protocol_version,
                _ => 0,
            };
            let code = normalized_code(request->JoinRoom_code@);
            &&& member is Some ==> only_refused(rooms, member, o, sent, conn, ErrorKind::Malformed)
                && o.open
            &&& member is None && version != 5 ==> only_refused(
                rooms,
                member,
                o,
                sent,
                conn,
                ErrorKind::ProtocolVersionMismatch,
            ) && !o.open
            &&& member is None && version == 5 && request is JoinRoom ==> {
                &&& !rooms.contains_key(code) ==> only_refused(
                    rooms,
                    member,
                    o,
                    sent,
                    conn,
                    ErrorKind::RoomNotFound,
                ) && o.open
                &&& rooms.contains_key(code) && rooms[code].started ==> only_refused(
                    rooms,
                    member,
                    o,
                    sent,
                    conn,
                    ErrorKind::RoomAlreadyStarted,
                ) && o.open
                &&& rooms.contains_key(code) && !rooms[code].started && rooms[code].players.len()
                    >= 4 ==> only_refused(rooms, member, o, sent, conn, ErrorKind::RoomFull)
                    && o.open
            }
        }),
{
    if o.sent.len() == 1 {
        let r = o.sent[0];
        assert(o.sent =~= seq![r]);
        lemma_one_reply(sent, r);
    }
}

// ---------------------------------------------------------------------
// In the room
// ---------------------------------------------------------------------

/// A report of being ready, or of not being it, sets the sender's own flag to
/// what was reported, and keeps their save exactly where they are ready; nobody
/// else changes. Every member then sees the roster as the players now are.
pub proof fn law_reports_are_taken_and_shown(
    rooms: Map<Seq<char>, RoomView>,
    code: Seq<char>,
    conn: u64,
    ready: bool,
    save: Option<Vec<u8>>,
    fresh: Seq<char>,
    clock: u64,
    max_save: nat,
    o: Outcome,
    sent: Seq<(u64, Reply)>,
    at: int,
    i: int,
)
    requires
        comes_of(
            rooms,
            Some(code),
            conn,
            Frame::Binary(Some(Request::SetReady { ready, save })),
            fresh,
            clock,
            max_save,
            o,
            sent,
        ),
        save matches Some(s) ==> s@.len() <= max_save,
        rooms.contains_key(code),
        !rooms[code].started,
        rooms[code].players.len() <= 4,
        sits_at(rooms[code].players, conn, at),
    ensures
        ({
            let was = rooms[code].players;
            let now = o.rooms[code].players;
            &&& o.open
            &&& o.member == Some(code)
            &&& o.rooms == rooms.insert(code, o.rooms[code])
            &&& !o.rooms[code].started
            &&& now.len() == was.len()
            &&& now[at].ready == ready
            &&& ready ==> now[at].save == blob_view(save)
            &&& !ready ==> now[at].save is None
            &&& now[at].conn == conn
            &&& now[at].nick == was[at].nick
            &&& now[at].rom_crc32 == was[at].rom_crc32
            &&& now[at].rom_title == was[at].rom_title
            &&& !now[at].gone
            &&& 0 <= i < was.len() && i != at ==> now[i] == was[i]
            &&& all_see_the_roster(sent, 0, now)
            &&& 0 <= i < was.len() ==> (sent[i].1 matches Reply::Roster { players, .. }
                && players@[at].ready == ready)
        }),
{
    lemma_seat_is(rooms[code].players, conn, at);
    let now = o.rooms[code].players;
    let none = Seq::<(u64, ReplyView)>::empty();
    assert(none + crate::server::rosters(now) =~= crate::server::rosters(now));
    lemma_rosters_are_seen(sent, none, now);
    if 0 <= i < now.len() {
        assert(now[i].conn == sent[0 + i].0);
        let players = sent[i].1->Roster_players@;
        assert(players[at].ready == now[at].ready);
    }
}

/// Reports that are not taken: a save that is too large is refused; in a room
/// that has started, in no room and from someone who is not there, nothing
/// happens.
pub proof fn law_reports_that_are_not_taken(
    rooms: Map<Seq<char>, RoomView>,
    member: Option<Seq<char>>,
    conn: u64,
    ready: bool,
    save: Option<Vec<u8>>,
    fresh: Seq<char>,
    clock: u64,
    max_save: nat,
    o: Outcome,
    sent: Seq<(u64, Reply)>,
)
    requires
        comes_of(
            rooms,
            member,
            conn,
            Frame::Binary(Some(Request::SetReady { ready, save })),
            fresh,
            clock,
            max_save,
            o,
            sent,
        ),
    ensures
        ({
            let too_large = save matches Some(s) && s@.len() > max_save;
            &&& member is None ==> nothing_happened(rooms, member, o, sent)
            &&& member is Some && too_large ==> only_refused(
                rooms,
                member,
                o,
                sent,
                conn,
                ErrorKind::Malformed,
            ) && o.open
            &&& member matches Some(code) ==> !too_large && (!rooms.contains_key(code)
                || rooms[code].started || !crate::server::laws::plays_in(rooms[code], conn))
                ==> nothing_happened(rooms, member, o, sent)
        }),
{
    assert(replies_view(sent).len() == sent.len());
    if o.sent.len() == 1 {
        let r = o.sent[0];
        assert(o.sent =~= seq![r]);
        lemma_one_reply(sent, r);
    }
    if let Some(code) = member {
        if !crate::server::laws::plays_in(rooms[code], conn) {
            lemma_no_seat(rooms[code].players, conn);
        }
    }
}

proof fn lemma_to_all(players: Seq<PlayerView>, reply: ReplyView)
    ensures
        forall|k: int|
            0 <= k < to_all(players, reply).len() ==> (#[trigger] to_all(players, reply)[k]).1
                == reply && exists|i: int|
                0 <= i < players.len() && !(#[trigger] players[i]).gone && players[i].conn
                    == to_all(players, reply)[k].0,
        forall|i: int|
            0 <= i < players.len() && !(#[trigger] players[i]).gone ==> to_all(
                players,
                reply,
            ).contains((players[i].conn, reply)),
        (forall|a: int, b: int|
            0 <= a < b < players.len() ==> (#[trigger] players[a]).conn != (
            #[trigger] players[b]).conn) ==> forall|a: int, b: int|
            0 <= a < b < to_all(players, reply).len() ==> (#[trigger] to_all(players, reply)[a]).0
                != (#[trigger] to_all(players, reply)[b]).0,
    decreases players.len(),
{
    reveal(Seq::filter);
    let t = to_all(players, reply);
    if players.len() > 0 {
        let d = players.drop_last();
        let n = players.len() - 1;
        lemma_to_all(d, reply);
        let td = to_all(d, reply);
        if players[n].gone {
            assert(t =~= td);
        } else {
            assert(t =~= td.push((players[n].conn, reply)));
        }
        assert forall|k: int| 0 <= k < t.len() implies (#[trigger] t[k]).1 == reply && exists|
            i: int,
        |
            0 <= i < players.len() && !(#[trigger] players[i]).gone && players[i].conn
                == t[k].0 by {
            if k < td.len() {
                assert(t[k] == td[k]);
                let i = choose|i: int|
                    0 <= i < d.len() && !(#[trigger] d[i]).gone && d[i].conn == td[k].0;
                assert(players[i] == d[i]);
            } else {
                assert(!players[n].gone);
            }
        }
        assert forall|i: int| 0 <= i < players.len() && !(
        #[trigger] players[i]).gone implies t.contains((players[i].conn, reply)) by {
            if i < n {
                assert(d[i] == players[i]);
                assert(td.contains((d[i].conn, reply)));
                let k = choose|k: int| 0 <= k < td.len() && td[k] == (d[i].conn, reply);
                assert(t[k] == td[k]);
            } else {
                assert(t[t.len() - 1] == (players[n].conn, reply));
            }
        }
        if forall|a: int, b: int|
            0 <= a < b < players.len() ==> (#[trigger] players[a]).conn != (
            #[trigger] players[b]).conn {
            assert forall|a: int, b: int| 0 <= a < b < d.len() implies (#[trigger] d[a]).conn != (
            #[trigger] d[b]).conn by {
                assert(players[a].conn != players[b].conn);
            }
            assert forall|a: int, b: int| 0 <= a < b < t.len() implies (#[trigger] t[a]).0 != (
            #[trigger] t[b]).0 by {
                if b < td.len() {
                    assert(t[a] == td[a] && t[b] == td[b]);
                } else {
                    assert(t[a] == td[a]);
                    let i = choose|i: int|
                        0 <= i < d.len() && !(#[trigger] d[i]).gone && d[i].conn == td[a].0;
                    assert(players[i].conn != players[n].conn);
                }
            }
        }
    }
}

/// Whether someone who is still there plays over a connection.
pub open spec fn someone_is_there(players: Seq<PlayerView>, conn: u64) -> bool {
    exists|i: int|
        0 <= i < players.len() && !(#[trigger] players[i]).gone && players[i].conn == conn
}

/// Whether a reply goes to everyone who is still there, once each, and to
/// nobody else. What the reply is, is said of one of its copies.
pub open spec fn goes_to_all(sent: Seq<(u64, Reply)>, players: Seq<PlayerView>) -> bool {
    &&& forall|i: int|
        0 <= i < players.len() && !(#[trigger] players[i]).gone ==> exists|k: int|
            0 <= k < sent.len() && (#[trigger] sent[k]).0 == players[i].conn
    &&& forall|k: int| 0 <= k < sent.len() ==> someone_is_there(players, (#[trigger] sent[k]).0)
    &&& forall|a: int, b: int|
        0 <= a < b < sent.len() ==> (#[trigger] sent[a]).0 != (#[trigger] sent[b]).0
}

proof fn lemma_goes_to_all(sent: Seq<(u64, Reply)>, players: Seq<PlayerView>, reply: ReplyView)
    requires
        replies_view(sent) == to_all(players, reply),
        forall|a: int, b: int|
            0 <= a < b < players.len() ==> (#[trigger] players[a]).conn != (
            #[trigger] players[b]).conn,
    ensures
        goes_to_all(sent, players),
        forall|k: int| 0 <= k < sent.len() ==> (#[trigger] sent[k]).1@ == reply,
{
    lemma_to_all(players, reply);
    let t = to_all(players, reply);
    assert(t.len() == sent.len());
    assert forall|k: int| 0 <= k < sent.len() implies t[k] == (
        (#[trigger] sent[k]).0,
        sent[k].1@,
    ) by {
        assert(replies_view(sent)[k] == (sent[k].0, sent[k].1@));
    }
    assert forall|i: int| 0 <= i < players.len() && !(#[trigger] players[i]).gone implies exists|
        k: int,
    |
        0 <= k < sent.len() && (#[trigger] sent[k]).0 == players[i].conn by {
        assert(t.contains((players[i].conn, reply)));
        let k = choose|k: int| 0 <= k < t.len() && t[k] == (players[i].conn, reply);
        assert(sent[k].0 == players[i].conn);
    }
    assert forall|k: int| 0 <= k < sent.len() implies someone_is_there(
        players,
        (#[trigger] sent[k]).0,
    ) by {
        assert(t[k].0 == sent[k].0);
    }
    assert forall|a: int, b: int| 0 <= a < b < sent.len() implies (#[trigger] sent[a]).0 != (
    #[trigger] sent[b]).0 by {
        assert(t[a].0 != t[b].0);
    }
}

/// A chat line goes to everyone in the room who is still there, its sender
/// among them, under the sender's seat and nick. It is what was said, or its
/// first 512 characters. No room changes.
pub proof fn law_chat_is_heard_by_all(
    rooms: Map<Seq<char>, RoomView>,
    code: Seq<char>,
    conn: u64,
    text: String,
    fresh: Seq<char>,
    clock: u64,
    max_save: nat,
    o: Outcome,
    sent: Seq<(u64, Reply)>,
    at: int,
    k: int,
)
    requires
        comes_of(
            rooms,
            Some(code),
            conn,
            Frame::Binary(Some(Request::Chat { text })),
            fresh,
            clock,
            max_save,
            o,
            sent,
        ),
        rooms.contains_key(code),
        crate::server::laws::room_ok(rooms[code]),
        sits_at(rooms[code].players, conn, at),
    ensures
        o.open && o.rooms == rooms && o.member == Some(code),
        goes_to_all(sent, rooms[code].players),
        0 <= k < sent.len() ==> (sent[k].1 matches Reply::Chat { from, nick, text: line } && {
            &&& from == at
            &&& nick@ == rooms[code].players[at].nick
            &&& text@.len() <= 512 ==> line@ == text@
            &&& text@.len() > 512 ==> line@ == text@.take(512)
        }),
{
    lemma_seat_is(rooms[code].players, conn, at);
    let line = if text@.len() < 512 {
        text@
    } else {
        text@.take(512)
    };
    assert(text@.take(text@.len() as int) =~= text@);
    lemma_goes_to_all(
        sent,
        rooms[code].players,
        ReplyView::Chat { from: at as u8, nick: rooms[code].players[at].nick, text: line },
    );
}

// ---------------------------------------------------------------------
// Starting
// ---------------------------------------------------------------------

/// Whether a reply is the start of some players' session as the one at a
/// position hears it.
pub open spec fn is_start(r: Reply, players: Seq<PlayerView>, at: int, clock: u64) -> bool {
    &&& r matches Reply::Starting { clock_unix_micros, players: listed, your_idx }
    &&& clock_unix_micros == clock
    &&& your_idx == at
    &&& listed@.len() == players.len()
    &&& forall|i: int|
        0 <= i < players.len() ==> {
            &&& (#[trigger] listed@[i]).nick@ == players[i].nick
            &&& listed@[i].rom_crc32 == players[i].rom_crc32
            &&& blob_view(listed@[i].save) == players[i].save
        }
}

/// The player in the first seat starts a room of two or more who are all ready.
/// Every player hears, in their order, who plays and with what, where they sit,
/// and the one clock. The room has started then, and keeps its players but not
/// their saves.
pub proof fn law_starting_a_room(
    rooms: Map<Seq<char>, RoomView>,
    code: Seq<char>,
    conn: u64,
    fresh: Seq<char>,
    clock: u64,
    max_save: nat,
    o: Outcome,
    sent: Seq<(u64, Reply)>,
    i: int,
)
    requires
        comes_of(
            rooms,
            Some(code),
            conn,
            Frame::Binary(Some(Request::Start)),
            fresh,
            clock,
            max_save,
            o,
            sent,
        ),
        rooms.contains_key(code),
        !rooms[code].started,
        sits_at(rooms[code].players, conn, 0),
        2 <= rooms[code].players.len() <= 4,
        forall|k: int|
            0 <= k < rooms[code].players.len() ==> (#[trigger] rooms[code].players[k]).ready,
        0 <= i < rooms[code].players.len(),
    ensures
        ({
            let was = rooms[code].players;
            let now = o.rooms[code].players;
            &&& o.open && o.member == Some(code)
            &&& o.rooms == rooms.insert(code, o.rooms[code])
            &&& o.rooms[code].started
            &&& now.len() == was.len()
            &&& now[i] == (PlayerView { save: None, ..was[i] })
            &&& sent.len() == was.len()
            &&& sent[i].0 == was[i].conn
            &&& is_start(sent[i].1, was, i, clock)
        }),
{
    let was = rooms[code].players;
    lemma_seat_is(was, conn, 0);
    assert(crate::server::everyone_ready(was));
    assert(replies_view(sent).len() == sent.len());
    assert(replies_view(sent)[i] == (sent[i].0, sent[i].1@));
    let listed = sent[i].1->Starting_players@;
    assert(starters_view(listed) == crate::server::starters_of(was));
    assert(starters_view(listed).len() == listed.len());
    assert forall|k: int| 0 <= k < was.len() implies {
        &&& (#[trigger] listed[k]).nick@ == was[k].nick
        &&& listed[k].rom_crc32 == was[k].rom_crc32
        &&& blob_view(listed[k].save) == was[k].save
    } by {
        assert(starters_view(listed)[k] == listed[k]@);
    }
}

/// A start that is not the first seat's is refused, and so is one of a room
/// with fewer than two players or anyone not ready. In no room, and in one that
/// has started, nothing happens.
pub proof fn law_starts_that_are_refused(
    rooms: Map<Seq<char>, RoomView>,
    code: Seq<char>,
    conn: u64,
    fresh: Seq<char>,
    clock: u64,
    max_save: nat,
    o: Outcome,
    sent: Seq<(u64, Reply)>,
    at: int,
    i: int,
)
    requires
        comes_of(
            rooms,
            Some(code),
            conn,
            Frame::Binary(Some(Request::Start)),
            fresh,
            clock,
            max_save,
            o,
            sent,
        ),
        rooms.contains_key(code),
        sits_at(rooms[code].players, conn, at),
        0 <= i < rooms[code].players.len(),
    ensures
        rooms[code].started ==> nothing_happened(rooms, Some(code), o, sent),
        !rooms[code].started && at > 0 ==> only_refused(
            rooms,
            Some(code),
            o,
            sent,
            conn,
            ErrorKind::NotHost,
        ) && o.open,
        !rooms[code].started && at == 0 && (rooms[code].players.len() < 2
            || !rooms[code].players[i].ready) ==> only_refused(
            rooms,
            Some(code),
            o,
            sent,
            conn,
            ErrorKind::NotEveryoneReady,
        ) && o.open,
{
    lemma_seat_is(rooms[code].players, conn, at);
    assert(replies_view(sent).len() == sent.len());
    if o.sent.len() == 1 {
        let r = o.sent[0];
        assert(o.sent =~= seq![r]);
        lemma_one_reply(sent, r);
    }
}

// ---------------------------------------------------------------------
// Signals
// ---------------------------------------------------------------------

/// In a room that has started a signal goes to the seat it names and to nobody
/// else, as it is, under the sender's seat. To a seat nobody holds any more, or
/// none, it goes nowhere; before the start it is refused.
pub proof fn law_signals_are_relayed(
    rooms: Map<Seq<char>, RoomView>,
    code: Seq<char>,
    conn: u64,
    to: u8,
    payload: Vec<u8>,
    fresh: Seq<char>,
    clock: u64,
    max_save: nat,
    o: Outcome,
    sent: Seq<(u64, Reply)>,
    at: int,
)
    requires
        comes_of(
            rooms,
            Some(code),
            conn,
            Frame::Binary(Some(Request::Signal { to, payload })),
            fresh,
            clock,
            max_save,
            o,
            sent,
        ),
        rooms.contains_key(code),
        rooms[code].players.len() <= 4,
        sits_at(rooms[code].players, conn, at),
    ensures
        ({
            let room = rooms[code];
            let there = to < room.players.len() && !room.players[to as int].gone;
            &&& o.open && o.rooms == rooms && o.member == Some(code)
            &&& room.started && there ==> {
                &&& sent.len() == 1
                &&& sent[0].0 == room.players[to as int].conn
                &&& sent[0].1 matches Reply::Signal { from, payload: p } && from == at && p@
                    == payload@
            }
            &&& room.started && !there ==> nothing_happened(rooms, Some(code), o, sent)
            &&& !room.started ==> only_refused(
                rooms,
                Some(code),
                o,
                sent,
                conn,
                ErrorKind::Malformed,
            )
        }),
{
    lemma_seat_is(rooms[code].players, conn, at);
    assert(replies_view(sent).len() == sent.len());
    if o.sent.len() == 1 {
        let r = o.sent[0];
        assert(o.sent =~= seq![r]);
        lemma_one_reply(sent, r);
    }
}

/// Who is in no room, or not in the one they think, is neither heard nor
/// relayed, and starts nothing.
pub proof fn law_outsiders_are_not_heard(
    rooms: Map<Seq<char>, RoomView>,
    member: Option<Seq<char>>,
    conn: u64,
    request: Request,
    fresh: Seq<char>,
    clock: u64,
    max_save: nat,
    o: Outcome,
    sent: Seq<(u64, Reply)>,
)
    requires
        comes_of(
            rooms,
            member,
            conn,
            Frame::Binary(Some(request)),
            fresh,
            clock,
            max_save,
            o,
            sent,
        ),
        request is Chat || request is Start || request is Signal,
        member matches Some(code) ==> !rooms.contains_key(code),
    ensures
        nothing_happened(rooms, member, o, sent),
{
    assert(replies_view(sent).len() == sent.len());
}

// ---------------------------------------------------------------------
// Leaving
// ---------------------------------------------------------------------

/// Asking to leave closes the connection, and nothing else yet: the player
/// leaves when it ends.
pub proof fn law_asking_to_leave_closes_the_connection(
    rooms: Map<Seq<char>, RoomView>,
    member: Option<Seq<char>>,
    conn: u64,
    frame: Frame,
    fresh: Seq<char>,
    clock: u64,
    max_save: nat,
    o: Outcome,
    sent: Seq<(u64, Reply)>,
)
    requires
        comes_of(rooms, member, conn, frame, fresh, clock, max_save, o, sent),
        frame is Close || (frame matches Frame::Binary(Some(r)) && r is Leave),
    ensures
        !o.open,
        o.rooms == rooms,
        o.member == member,
        sent.len() == 0,
{
    assert(replies_view(sent).len() == sent.len());
}

/// Leaving a room before its start frees the seat: whoever sat behind it moves
/// up, nobody is ready any more, and everyone left sees the new roster.
pub proof fn law_leaving_before_the_start(
    rooms: Map<Seq<char>, RoomView>,
    code: Seq<char>,
    conn: u64,
    sent: Seq<(u64, Reply)>,
    at: int,
    i: int,
)
    requires
        rooms.contains_key(code),
        !rooms[code].started,
        crate::server::laws::room_ok(rooms[code]),
        sits_at(rooms[code].players, conn, at),
        rooms[code].players.len() > 1,
        replies_view(sent) == left(rooms, Some(code), conn).sent,
    ensures
        ({
            let o = left(rooms, Some(code), conn);
            let was = rooms[code].players;
            let now = o.rooms[code].players;
            &&& o.member is None && !o.open
            &&& o.rooms.contains_key(code)
            &&& o.rooms == rooms.insert(code, o.rooms[code])
            &&& !o.rooms[code].started
            &&& now.len() == was.len() - 1
            &&& 0 <= i < at ==> now[i] == (PlayerView { ready: false, save: None, ..was[i] })
            &&& at < i < was.len() ==> now[i - 1] == (PlayerView {
                ready: false,
                save: None,
                ..was[i]
            })
            &&& all_see_the_roster(sent, 0, now)
        }),
{
    let was = rooms[code].players;
    lemma_seat_is(was, conn, at);
    let o = left(rooms, Some(code), conn);
    let now = crate::server::remaining(rooms[code], at);
    assert(!now[0].gone) by {
        if at == 0 {
            assert(!was[1].gone);
        } else {
            assert(!was[0].gone);
        }
    }
    assert(!crate::server::deserted(now));
    assert(o.rooms[code].players == now);
    let none = Seq::<(u64, ReplyView)>::empty();
    assert(none + crate::server::rosters(now) =~= crate::server::rosters(now));
    lemma_rosters_are_seen(sent, none, now);
}

/// Leaving a room after its start tells everyone who is still there which seat
/// is empty now. The seats stay as they are, and the room is closed exactly
/// where nobody is left.
pub proof fn law_leaving_after_the_start(
    rooms: Map<Seq<char>, RoomView>,
    code: Seq<char>,
    conn: u64,
    sent: Seq<(u64, Reply)>,
    at: int,
    i: int,
    k: int,
)
    requires
        rooms.contains_key(code),
        rooms[code].started,
        crate::server::laws::room_ok(rooms[code]),
        sits_at(rooms[code].players, conn, at),
        0 <= i < rooms[code].players.len(),
        replies_view(sent) == left(rooms, Some(code), conn).sent,
    ensures
        ({
            let o = left(rooms, Some(code), conn);
            let was = rooms[code].players;
            let now = was.update(at, PlayerView { gone: true, ..was[at] });
            &&& o.member is None && !o.open
            &&& goes_to_all(sent, now)
            &&& 0 <= k < sent.len() ==> (sent[k].1 matches Reply::PeerLeft { player_idx }
                && player_idx == at)
            &&& i != at && !was[i].gone ==> o.rooms == rooms.insert(
                code,
                RoomView { started: true, players: now },
            )
            &&& !o.rooms.contains_key(code) ==> o.rooms == rooms.remove(code) && (i != at
                ==> was[i].gone)
        }),
{
    let was = rooms[code].players;
    lemma_seat_is(was, conn, at);
    let now = was.update(at, PlayerView { gone: true, ..was[at] });
    assert(now == crate::server::remaining(rooms[code], at));
    assert forall|a: int, b: int| 0 <= a < b < now.len() implies (#[trigger] now[a]).conn != (
    #[trigger] now[b]).conn by {
        assert(was[a].conn != was[b].conn);
    }
    lemma_goes_to_all(sent, now, ReplyView::PeerLeft { player_idx: at as u8 });
    if i != at && !was[i].gone {
        assert(!now[i].gone);
    }
}

/// Who was in no room leaves none.
pub proof fn law_outsiders_leave_nothing(
    rooms: Map<Seq<char>, RoomView>,
    member: Option<Seq<char>>,
    conn: u64,
)
    requires
        member matches Some(code) ==> !rooms.contains_key(code) || !crate::server::laws::plays_in(
            rooms[code],
            conn,
        ),
    ensures
        left(rooms, member, conn).rooms == rooms,
        left(rooms, member, conn).sent.len() == 0,
        left(rooms, member, conn).member is None,
{
    if let Some(code) = member {
        if rooms.contains_key(code) {
            lemma_no_seat(rooms[code].players, conn);
        }
    }
}

// ---------------------------------------------------------------------
// Frames
// ---------------------------------------------------------------------

/// A keepalive is answered to whoever sent it, and pings and pongs are let
/// pass. What is no request is refused and leaves the connection open. None of
/// these touches a room.
pub proof fn law_frames_that_are_no_requests(
    rooms: Map<Seq<char>, RoomView>,
    member: Option<Seq<char>>,
    conn: u64,
    frame: Frame,
    fresh: Seq<char>,
    clock: u64,
    max_save: nat,
    o: Outcome,
    sent: Seq<(u64, Reply)>,
)
    requires
        comes_of(rooms, member, conn, frame, fresh, clock, max_save, o, sent),
    ensures
        frame is Ping || frame is Pong ==> nothing_happened(rooms, member, o, sent),
        frame matches Frame::Text(t) ==> {
            &&& t@ == "ping"@ ==> o.open && o.rooms == rooms && o.member == member && sent.len()
                == 1 && sent[0].0 == conn && sent[0].1 is Pong
            &&& t@ != "ping"@ ==> only_refused(rooms, member, o, sent, conn, ErrorKind::Malformed)
                && o.open
        },
        frame is Other || (frame matches Frame::Binary(None)) ==> only_refused(
            rooms,
            member,
            o,
            sent,
            conn,
            ErrorKind::Malformed,
        ) && o.open,
{
    assert(replies_view(sent).len() == sent.len());
    if o.sent.len() == 1 {
        let r = o.sent[0];
        assert(o.sent =~= seq![r]);
        lemma_one_reply(sent, r);
    }
}

// ---------------------------------------------------------------------
// Nicks
// ---------------------------------------------------------------------

/// A nick is what was typed without the white space around it: all of it where
/// it has up to 24 characters, its first 24 where it has more, and `player`
/// where it has none. So nobody goes by nothing, nor by more.
pub proof fn law_nicks_are_short_and_never_empty(typed: Seq<char>)
    ensures
        1 <= shown_nick(typed).len() <= 24,
        trimmed(typed).len() == 0 ==> shown_nick(typed) == "player"@,
        1 <= trimmed(typed).len() <= 24 ==> shown_nick(typed) == trimmed(typed),
        trimmed(typed).len() > 24 ==> shown_nick(typed).len() == 24 && forall|i: int|
            0 <= i < 24 ==> shown_nick(typed)[i] == #[trigger] trimmed(typed)[i],
{
    reveal_strlit("player");
    let t = trimmed(typed);
    if t.len() == 24 {
        assert(t.take(24) =~= t);
    }
}

// ---------------------------------------------------------------------
// The wire
// ---------------------------------------------------------------------

/// Whether a request says what a client's message says.
pub open spec fn asks_what_it_says(r: Request, m: ClientMsg) -> bool {
    match m {
        ClientMsg::CreateRoom(c) => r matches Request::CreateRoom {
            protocol_version,
            nick,
            rom_crc32,
            rom_title,
        } && protocol_version == c.protocol_version && nick@ == c.nick@ && rom_crc32 == c.rom_crc32
            && rom_title@ == c.rom_title@,
        ClientMsg::JoinRoom(j) => r matches Request::JoinRoom {
            protocol_version,
            code,
            nick,
            rom_crc32,
            rom_title,
        } && protocol_version == j.protocol_version && code@ == j.code@ && nick@ == j.nick@
            && rom_crc32 == j.rom_crc32 && rom_title@ == j.rom_title@,
        ClientMsg::SetReady(s) => r matches Request::SetReady { ready, save } && ready == s.ready
            && save is None,
        ClientMsg::Start(_) => r is Start,
        ClientMsg::Signal(s) => r matches Request::Signal { to, payload } && payload@ == s.payload@
            && (s.peer <= 255 ==> to == s.peer) && (s.peer > 255 ==> to == 255),
        ClientMsg::Leave(_) => r is Leave,
        ClientMsg::KickPlayer(_) => false,
    }
}

/// A request is what the client's message says, part by part; a kick is none.
pub proof fn law_requests_say_what_their_messages_say(m: ClientMessage, r: Request)
    requires
        request_of(m@) == Some(r@),
    ensures
        m.msg matches Some(msg) && asks_what_it_says(r, msg),
{
}

/// Every message but a kick is a request.
pub proof fn law_every_message_but_a_kick_is_a_request(m: ClientMessage)
    ensures
        request_of(m@) is Some <==> (m.msg matches Some(msg) && !(msg is KickPlayer)),
{
}

/// A reply's message says what the reply says, part by part. A roster's seats
/// are its positions, and its room is a cable room; a start's players keep
/// their order; an error keeps its kind.
pub proof fn law_messages_say_what_their_replies_say(r: Reply, m: ServerMessage, i: int)
    requires
        message_of(r@) == Some(m@),
    ensures
        r matches Reply::RoomCreated { code } ==> (m.msg matches Some(ServerMsg::RoomCreated(c))
            && c.code@ == code@),
        r matches Reply::RoomJoined { code } ==> (m.msg matches Some(ServerMsg::RoomJoined(c))
            && c.code@ == code@),
        r matches Reply::Roster { players, your_idx } ==> (m.msg matches Some(
            ServerMsg::Roster(s),
        ) && {
            &&& s.your_idx == your_idx
            &&& !s.wireless
            &&& s.players@.len() == players@.len()
            &&& 0 <= i < players@.len() ==> {
                &&& s.players@[i].nick@ == players@[i].nick@
                &&& s.players@[i].ready == players@[i].ready
                &&& s.players@[i].rom_crc32 == players@[i].rom_crc32
                &&& s.players@[i].rom_title@ == players@[i].rom_title@
                &&& i <= u32::MAX ==> s.players@[i].seat == i
            }
        }),
        r matches Reply::Starting { players, your_idx, .. } ==> (m.msg matches Some(
            ServerMsg::Starting(s),
        ) && {
            &&& s.your_idx == your_idx
            &&& s.players@.len() == players@.len()
            &&& 0 <= i < players@.len() ==> s.players@[i].nick@ == players@[i].nick@
                && s.players@[i].rom_crc32 == players@[i].rom_crc32
        }),
        r matches Reply::Signal { from, payload } ==> (m.msg matches Some(ServerMsg::Signal(s))
            && s.peer == from && s.payload@ == payload@),
        r matches Reply::PeerLeft { player_idx } ==> (m.msg matches Some(ServerMsg::PeerLeft(p))
            && p.player_idx == player_idx),
        r matches Reply::Error { kind, message } ==> (m.msg matches Some(ServerMsg::Error(e))
            && crate::signaling::kind_of(e.kind) == kind && e.message@ == message@),
        !(r is Chat) && !(r is Pong),
{
    match r {
        Reply::Roster { players, your_idx } => {
            let listed = m.msg.unwrap()->Roster_0.players@;
            assert(crate::signaling::messages::player_infos_view(listed)
                == crate::server::wire::infos_of(members_view(players@)));
            assert(crate::signaling::messages::player_infos_view(listed).len() == listed.len());
            assert(members_view(players@).len() == players@.len());
            if 0 <= i < players@.len() {
                assert(crate::signaling::messages::player_infos_view(listed)[i] == listed[i]@);
                assert(members_view(players@)[i] == players@[i]@);
            }
        },
        Reply::Starting { players, your_idx, .. } => {
            let listed = m.msg.unwrap()->Starting_0.players@;
            assert(crate::signaling::messages::start_players_view(listed)
                == crate::server::wire::start_players_of(starters_view(players@)));
            assert(crate::signaling::messages::start_players_view(listed).len() == listed.len());
            assert(starters_view(players@).len() == players@.len());
            if 0 <= i < players@.len() {
                assert(crate::signaling::messages::start_players_view(listed)[i] == listed[i]@);
                assert(starters_view(players@)[i] == players@[i]@);
            }
        },
        Reply::Error { kind, .. } => {
            crate::signaling::law_error_kinds_are_told_from_their_numbers(kind);
        },
        _ => {},
    }
}

/// A keepalive is answered in text, and a chat line is not carried; every other
/// reply is a binary frame.
pub proof fn law_what_carries_a_reply(r: Reply)
    ensures
        r is Pong ==> packet_of(r@) == Some(PacketView::Text("pong"@)),
        r is Chat ==> packet_of(r@) is None,
        !(r is Pong) && !(r is Chat) ==> packet_of(r@) matches Some(PacketView::Binary(_)),
{
}

// ---------------------------------------------------------------------
// The servers handed to clients
// ---------------------------------------------------------------------

proof fn lemma_comma_at(s: Seq<char>, from: int, at: int)
    requires
        0 <= from <= at < s.len(),
        s[at] == ',',
        forall|i: int| from <= i < at ==> #[trigger] s[i] != ',',
    ensures
        crate::server::comma_at(s, from) == at,
    decreases at - from,
{
    if from < at {
        assert(s[from] != ',');
        lemma_comma_at(s, from + 1, at);
    }
}

/// A TURN option is an address, a name and a credential with a comma after
/// each of the first two; only the credential may hold further commas.
pub proof fn law_turn_options_are_taken_apart(
    url: Seq<char>,
    username: Seq<char>,
    credential: Seq<char>,
)
    requires
        !url.contains(','),
        !username.contains(','),
    ensures
        turn_of(url + seq![','] + username + seq![','] + credential) == Some(
            IceServerView {
                urls: seq![url],
                username: Some(username),
                credential: Some(credential),
            },
        ),
{
    let s = url + seq![','] + username + seq![','] + credential;
    let a = url.len() as int;
    let b = a + 1 + username.len();
    assert(s[a] == ',');
    assert(s[b] == ',');
    assert forall|i: int| 0 <= i < a implies #[trigger] s[i] != ',' by {
        assert(s[i] == url[i]);
    }
    assert forall|i: int| a + 1 <= i < b implies #[trigger] s[i] != ',' by {
        assert(s[i] == username[i - a - 1]);
    }
    lemma_comma_at(s, 0, a);
    lemma_comma_at(s, a + 1, b);
    assert(s.subrange(0, a) =~= url);
    assert(s.subrange(a + 1, b) =~= username);
    assert(s.subrange(b + 1, s.len() as int) =~= credential);
}

/// What has fewer than two commas is no TURN option.
pub proof fn law_two_commas_make_a_turn_option(s: Seq<char>)
    ensures
        turn_of(s) is Some ==> exists|a: int, b: int|
            0 <= a < b < s.len() && #[trigger] s[a] == ',' && #[trigger] s[b] == ',',
{
    if turn_of(s) is Some {
        lemma_comma_found(s, 0);
        let a = crate::server::comma_at(s, 0);
        lemma_comma_found(s, a + 1);
        let b = crate::server::comma_at(s, a + 1);
        assert(s[a] == ',' && s[b] == ',');
    }
}

proof fn lemma_comma_found(s: Seq<char>, from: int)
    requires
        0 <= from,
    ensures
        crate::server::comma_at(s, from) >= from,
        crate::server::comma_at(s, from) < s.len() ==> s[crate::server::comma_at(s, from)] == ',',
    decreases s.len() - from,
{
    if from < s.len() && s[from] != ',' {
        lemma_comma_found(s, from + 1);
    }
}

/// The STUN addresses make up one server in front, and every TURN option one
/// behind it, in order. Without any the defaults are handed out; with one that
/// cannot be taken apart nothing is.
pub proof fn law_configured_servers(stun: Seq<Seq<char>>, turn: Seq<Seq<char>>, i: int)
    requires
        0 <= i < turn.len(),
    ensures
        turn_of(turn[i]) is None ==> configured_ice(stun, turn) is None,
        configured_ice(stun, turn) matches Some(servers) ==> {
            let first = if stun.len() > 0 {
                1int
            } else {
                0int
            };
            &&& servers.len() == first + turn.len()
            &&& turn_of(turn[i]) == Some(servers[first + i])
            &&& stun.len() > 0 ==> servers[0].urls == stun && servers[0].username is None
                && servers[0].credential is None
        },
        (forall|k: int| 0 <= k < turn.len() ==> turn_of(#[trigger] turn[k]) is Some)
            ==> configured_ice(stun, turn) is Some,
{
}

/// Without options the defaults are handed out, and STUN addresses alone make
/// up one server.
pub proof fn law_servers_without_turn(stun: Seq<Seq<char>>)
    ensures
        stun.len() == 0 ==> configured_ice(stun, Seq::empty()) == Some(default_ice()),
        stun.len() > 0 ==> (configured_ice(stun, Seq::empty()) matches Some(servers)
            && servers.len() == 1 && servers[0].urls == stun && servers[0].username is None
            && servers[0].credential is None),
        default_ice().len() == 1,
        default_ice()[0].urls.len() == 2,
        default_ice()[0].urls[0] == "stun:stun.l.google.com:19302"@,
        default_ice()[0].urls[1] == "stun:stun1.l.google.com:19302"@,
        default_ice()[0].username is None,
        default_ice()[0].credential is None,
{
}

} // verus!
