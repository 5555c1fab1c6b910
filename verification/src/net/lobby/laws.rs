//! What holds of a lobby's life, said of what goes in and what comes out.
use vstd::prelude::*;
use crate::net::lobby::{
    connecting_text, lobby_step, opening, outputs_view, replayed, shown_error, LobbyArgs,
    LobbyCommand, LobbyEvent, LobbyInput, LobbyMode, LobbyOutput, LobbyOutputView, LobbyPhase,
    LobbyView,
};
use crate::signaling::client_message;
use crate::signaling::codec::decoded;
use crate::signaling::messages::{player_infos_view, start_players_view};
use crate::signaling::server_message;
use crate::signaling::{kind_of, ClientMessage, ErrorKind, ServerMessage, ServerMessageView};

verus! {

/// Whether these are what a lobby does with something, and this is the lobby
/// after it.
pub open spec fn does(
    l: LobbyView,
    input: LobbyInput,
    after: LobbyView,
    outs: Seq<LobbyOutput>,
) -> bool {
    let o = lobby_step(l, input@);
    o.lobby == after && o.out == outputs_view(outs)
}

/// Whether bytes hold a message of the server.
pub open spec fn holds(bytes: Seq<u8>, m: server_message::Msg) -> bool {
    decoded::<ServerMessage>(bytes) == Some(ServerMessageView { msg: Some(m@) })
}

/// Whether a lobby reads commands as it does in the room: idling there, or
/// about to retry.
pub open spec fn takes_orders(l: LobbyView) -> bool {
    l.phase == LobbyPhase::Idle || l.phase == LobbyPhase::Retrying
}

// ---------------------------------------------------------------------
// Entering
// ---------------------------------------------------------------------

/// A lobby opens by saying what its arguments say: one that creates a room asks
/// for one of its own peripheral, one that joins names the code, and both give
/// the nick, the cart and the protocol they speak.
pub proof fn law_a_lobby_opens_with_its_arguments(args: LobbyArgs, m: ClientMessage)
    requires
        m@.msg == Some(opening(args)),
    ensures
        args.mode is Create ==> (m.msg matches Some(client_message::Msg::CreateRoom(c)) && {
            &&& c.protocol_version == 5
            &&& c.nick@ == args.nick@
            &&& c.rom_crc32 == args.rom_crc32
            &&& c.rom_title@ == args.rom_title@
            &&& c.wireless == args.wireless
        }),
        args.mode matches LobbyMode::Join { code } ==> (m.msg matches Some(
            client_message::Msg::JoinRoom(j),
        ) && {
            &&& j.protocol_version == 5
            &&& j.code@ == code@
            &&& j.nick@ == args.nick@
            &&& j.rom_crc32 == args.rom_crc32
            &&& j.rom_title@ == args.rom_title@
        }),
{
}

// ---------------------------------------------------------------------
// Commands
// ---------------------------------------------------------------------

/// A report of being ready, or of not being it, goes to the server as it was
/// made, and nothing else happens.
pub proof fn law_readiness_is_reported_as_it_is(
    l: LobbyView,
    ready: bool,
    after: LobbyView,
    outs: Seq<LobbyOutput>,
)
    requires
        takes_orders(l),
        does(l, LobbyInput::Command(Some(LobbyCommand::SetReady { ready })), after, outs),
    ensures
        after == l,
        outs.len() == 1,
        outs[0] matches LobbyOutput::Send(m) && m.msg matches Some(
            client_message::Msg::SetReady(s),
        ) && s.ready == ready,
{
    assert(outs.len() == outputs_view(outs).len());
    assert(outputs_view(outs)[0] == outs[0]@);
}

/// A start goes to the server, and so does a kick, with the seat it is of;
/// nothing else happens.
pub proof fn law_starts_and_kicks_are_passed_on(
    l: LobbyView,
    command: LobbyCommand,
    after: LobbyView,
    outs: Seq<LobbyOutput>,
)
    requires
        takes_orders(l),
        command is Start || command is Kick,
        does(l, LobbyInput::Command(Some(command)), after, outs),
    ensures
        after == l,
        outs.len() == 1,
        outs[0] matches LobbyOutput::Send(m) && match command {
            LobbyCommand::Kick { seat } => m.msg matches Some(
                client_message::Msg::KickPlayer(k),
            ) && k.seat == seat,
            _ => m.msg matches Some(client_message::Msg::Start(_)),
        },
{
    assert(outs.len() == outputs_view(outs).len());
    assert(outputs_view(outs)[0] == outs[0]@);
}

/// Leaving, and the UI going, tell the server so and close the connection, in
/// that order, wherever commands are read. The lobby is over then.
pub proof fn law_leaving_says_goodbye(
    l: LobbyView,
    command: Option<LobbyCommand>,
    after: LobbyView,
    outs: Seq<LobbyOutput>,
)
    requires
        takes_orders(l) || l.phase == LobbyPhase::AwaitingBoot,
        command matches Some(c) ==> c is Leave,
        does(l, LobbyInput::Command(command), after, outs),
    ensures
        after == (LobbyView { phase: LobbyPhase::Closed, ..l }),
        outs.len() == 2,
        outs[0] matches LobbyOutput::Send(m) && m.msg matches Some(client_message::Msg::Leave(_)),
        outs[1] is Close,
{
    assert(outs.len() == outputs_view(outs).len());
    assert(outputs_view(outs)[0] == outs[0]@);
    assert(outputs_view(outs)[1] == outs[1]@);
}

/// A dead session in a wireless room lowers the ready bit once, two and a half
/// seconds later; a second report before that starts the wait anew, and the
/// timer firing again does nothing.
pub proof fn law_a_dropped_session_lowers_the_ready_bit_once(
    l: LobbyView,
    dropped: LobbyView,
    fired: LobbyView,
    again: LobbyView,
    a: Seq<LobbyOutput>,
    b: Seq<LobbyOutput>,
    c: Seq<LobbyOutput>,
)
    requires
        l.phase == LobbyPhase::Idle,
        l.wireless,
        does(l, LobbyInput::Command(Some(LobbyCommand::Dropped)), dropped, a),
        does(dropped, LobbyInput::DanceFired, fired, b),
        does(fired, LobbyInput::DanceFired, again, c),
    ensures
        a.len() == 1,
        a[0] matches LobbyOutput::ArmDance(ms) && ms == 2500,
        dropped == (LobbyView { dance: true, ..l }),
        b.len() == 1,
        b[0] matches LobbyOutput::Send(m) && m.msg matches Some(client_message::Msg::SetReady(s))
            && !s.ready,
        fired == (LobbyView { dance: false, ..l }),
        c.len() == 0,
        again == fired,
{
    assert(a.len() == outputs_view(a).len());
    assert(b.len() == outputs_view(b).len());
    assert(c.len() == outputs_view(c).len());
    assert(outputs_view(a)[0] == a[0]@);
    assert(outputs_view(b)[0] == b[0]@);
}

/// A capture nobody awaits is let pass, and so is a dead session where a retry
/// is due anyway.
pub proof fn law_captures_nobody_awaits_are_let_pass(
    l: LobbyView,
    command: LobbyCommand,
    after: LobbyView,
    outs: Seq<LobbyOutput>,
)
    requires
        takes_orders(l) && command is Boot || l.phase == LobbyPhase::Retrying && command is Dropped
            || l.phase == LobbyPhase::AwaitingBoot && !(command is Boot) && !(command is Leave),
        does(l, LobbyInput::Command(Some(command)), after, outs),
    ensures
        after == l,
        outs.len() == 0,
{
    assert(outs.len() == outputs_view(outs).len());
}

// ---------------------------------------------------------------------
// What the server says
// ---------------------------------------------------------------------

/// The room's code is the one the server gives, whether it was created or
/// joined, and the UI hears it.
pub proof fn law_the_code_is_the_one_given(
    l: LobbyView,
    bytes: Vec<u8>,
    msg: server_message::Msg,
    after: LobbyView,
    outs: Seq<LobbyOutput>,
)
    requires
        l.phase == LobbyPhase::Idle,
        holds(bytes@, msg),
        msg is RoomCreated || msg is RoomJoined,
        does(l, LobbyInput::Received(bytes), after, outs),
    ensures
        ({
            let code = match msg {
                server_message::Msg::RoomCreated(r) => r.code@,
                server_message::Msg::RoomJoined(r) => r.code@,
                _ => Seq::empty(),
            };
            &&& after == (LobbyView { room_code: code, ..l })
            &&& outs.len() == 1
            &&& outs[0] matches LobbyOutput::Tell(LobbyEvent::Joined { code: c }) && c@ == code
        }),
{
    assert(outs.len() == outputs_view(outs).len());
    assert(outputs_view(outs)[0] == outs[0]@);
}

/// A roster of a room with this machine's peripheral is shown as it is: every
/// player in their position with their nick, readiness, cart and seat, and
/// which of them is this one. One of a room with the other peripheral ends the
/// lobby, and the reason is told.
pub proof fn law_rosters_are_shown_as_they_are(
    l: LobbyView,
    bytes: Vec<u8>,
    msg: server_message::Msg,
    after: LobbyView,
    outs: Seq<LobbyOutput>,
)
    requires
        l.phase == LobbyPhase::Idle,
        holds(bytes@, msg),
        msg is Roster,
        does(l, LobbyInput::Received(bytes), after, outs),
    ensures
        msg->Roster_0.wireless == l.wireless ==> {
            &&& after == l
            &&& outs.len() == 1
            &&& outs[0] matches LobbyOutput::Tell(LobbyEvent::Roster { players, your_idx }) && {
                let listed = msg->Roster_0.players@;
                &&& your_idx == msg->Roster_0.your_idx
                &&& players@.len() == listed.len()
                &&& forall|i: int|
                    0 <= i < listed.len() ==> {
                        &&& (#[trigger] players@[i]).nick@ == listed[i].nick@
                        &&& players@[i].ready == listed[i].ready
                        &&& players@[i].rom_crc32 == listed[i].rom_crc32
                        &&& players@[i].rom_title@ == listed[i].rom_title@
                        &&& players@[i].seat == listed[i].seat
                    }
            }
        },
        msg->Roster_0.wireless != l.wireless ==> {
            &&& after == (LobbyView { phase: LobbyPhase::Closed, ..l })
            &&& outs.len() == 2
            &&& outs[0] matches LobbyOutput::Tell(LobbyEvent::Fatal(t)) && t@
                == "This room plays over the "@ + (if l.wireless {
                "link cable"@
            } else {
                "wireless adapter"@
            }) + " — relaunch the game with it to join."@
            &&& outs[1] is Close
        },
{
    let listed = msg->Roster_0.players@;
    assert(outs.len() == outputs_view(outs).len());
    assert(outputs_view(outs)[0] == outs[0]@);
    if msg->Roster_0.wireless == l.wireless {
        let players = outs[0]->Tell_0->Roster_players@;
        assert(player_infos_view(players) == player_infos_view(listed));
        assert(player_infos_view(players).len() == players.len());
        assert(player_infos_view(listed).len() == listed.len());
        assert forall|i: int| 0 <= i < listed.len() implies {
            &&& (#[trigger] players[i]).nick@ == listed[i].nick@
            &&& players[i].ready == listed[i].ready
            &&& players[i].rom_crc32 == listed[i].rom_crc32
            &&& players[i].rom_title@ == listed[i].rom_title@
            &&& players[i].seat == listed[i].seat
        } by {
            assert(player_infos_view(players)[i] == players[i]@);
            assert(player_infos_view(listed)[i] == listed[i]@);
        }
    } else {
        assert(outputs_view(outs)[1] == outs[1]@);
    }
}

/// Being kicked ends the lobby, and so does a room that cannot be entered or a
/// protocol nobody shares; any other refusal is told, and the lobby goes on.
pub proof fn law_refusals_end_what_they_must(
    l: LobbyView,
    bytes: Vec<u8>,
    msg: server_message::Msg,
    after: LobbyView,
    outs: Seq<LobbyOutput>,
)
    requires
        l.phase == LobbyPhase::Idle,
        holds(bytes@, msg),
        msg is Error,
        does(l, LobbyInput::Received(bytes), after, outs),
    ensures
        ({
            let kind = kind_of(msg->Error_0.kind);
            let ends = kind == ErrorKind::ProtocolVersionMismatch || kind
                == ErrorKind::RoomNotFound || kind == ErrorKind::RoomFull || kind
                == ErrorKind::RoomAlreadyStarted;
            &&& kind == ErrorKind::Kicked ==> {
                &&& after == (LobbyView { phase: LobbyPhase::Closed, ..l })
                &&& outs.len() == 2
                &&& outs[0] matches LobbyOutput::Tell(LobbyEvent::Kicked)
                &&& outs[1] is Close
            }
            &&& ends ==> {
                &&& after == (LobbyView { phase: LobbyPhase::Closed, ..l })
                &&& outs.len() == 2
                &&& outs[0] matches LobbyOutput::Tell(LobbyEvent::Fatal(t)) && t@ == shown_error(
                    kind,
                )
                &&& outs[1] is Close
            }
            &&& !ends && kind != ErrorKind::Kicked ==> {
                &&& after == l
                &&& outs.len() == 1
                &&& outs[0] matches LobbyOutput::Tell(LobbyEvent::Error(t)) && t@ == shown_error(
                    kind,
                )
            }
        }),
{
    assert(outs.len() == outputs_view(outs).len());
    assert(outputs_view(outs)[0] == outs[0]@);
    if outs.len() == 2 {
        assert(outputs_view(outs)[1] == outs[1]@);
    }
}

/// What a refusal is called.
pub proof fn law_refusals_are_called_by_their_names(kind: ErrorKind)
    ensures
        kind == ErrorKind::RoomNotFound ==> shown_error(kind) == "No room with that code."@,
        kind == ErrorKind::RoomFull ==> shown_error(kind) == "That room is full."@,
        kind == ErrorKind::RoomAlreadyStarted ==> shown_error(kind)
            == "That room already started."@,
        kind == ErrorKind::NotHost ==> shown_error(kind)
            == "Only the room's creator can do that."@,
        kind == ErrorKind::NotEveryoneReady ==> shown_error(kind) == "The room can't link up yet."@,
        kind == ErrorKind::Kicked ==> shown_error(kind) == "The room's creator removed you."@,
        kind == ErrorKind::ProtocolVersionMismatch ==> shown_error(kind)
            == "This build is out of date — reload the app."@,
        kind == ErrorKind::Malformed || kind == ErrorKind::Internal || kind
            == ErrorKind::Unspecified ==> shown_error(kind) == "The server rejected that."@,
{
}

/// The greeting's servers are the mesh's; a player who left and a signal that
/// comes too late change nothing, nor does what cannot be read. None of these
/// is told.
pub proof fn law_greetings_and_late_signals(
    l: LobbyView,
    bytes: Vec<u8>,
    after: LobbyView,
    outs: Seq<LobbyOutput>,
    msg: server_message::Msg,
)
    requires
        l.phase == LobbyPhase::Idle,
        does(l, LobbyInput::Received(bytes), after, outs),
    ensures
        holds(bytes@, msg) && msg is Hello ==> outs.len() == 0 && after == (LobbyView {
            ice_servers: msg->Hello_0@.ice_servers,
            ..l
        }),
        holds(bytes@, msg) && (msg is PeerLeft || msg is Signal) ==> outs.len() == 0 && after == l,
        decoded::<ServerMessage>(bytes@) is None ==> outs.len() == 0 && after == l,
{
    assert(outs.len() == outputs_view(outs).len());
}

/// A server that is gone ends an idle lobby.
pub proof fn law_a_lost_server_ends_the_lobby(
    l: LobbyView,
    after: LobbyView,
    outs: Seq<LobbyOutput>,
)
    requires
        l.phase == LobbyPhase::Idle,
        does(l, LobbyInput::SocketClosed, after, outs),
    ensures
        after == (LobbyView { phase: LobbyPhase::Closed, ..l }),
        outs.len() == 2,
        outs[0] matches LobbyOutput::Tell(LobbyEvent::Fatal(t)) && t@
            == "signaling connection closed"@,
        outs[1] is Close,
{
    assert(outs.len() == outputs_view(outs).len());
    assert(outputs_view(outs)[0] == outs[0]@);
    assert(outputs_view(outs)[1] == outs[1]@);
}

// ---------------------------------------------------------------------
// Merging
// ---------------------------------------------------------------------

/// A merge that nothing stops goes from the server's start to the session. The
/// UI is told to capture the machine; the mesh is built among as many players as
/// the start lists, this one in the position it gives; the capture is what is
/// exchanged; and the session that is handed on has the room's code, the
/// players as the start listed them, this one's position, and every payload as
/// it was exchanged. The lobby is then where it was before.
pub proof fn law_a_merge_runs_through(
    l: Seq<LobbyView>,
    outs: Seq<Seq<LobbyOutput>>,
    bytes: Vec<u8>,
    msg: server_message::Msg,
    boot: Vec<u8>,
    boots: Vec<Vec<u8>>,
    i: int,
)
    requires
        l.len() == 5,
        outs.len() == 4,
        l[0].phase == LobbyPhase::Idle,
        l[0].stray.len() == 0,
        holds(bytes@, msg),
        msg is Starting,
        does(l[0], LobbyInput::Received(bytes), l[1], outs[0]),
        does(l[1], LobbyInput::MeshReady, l[2], outs[1]),
        does(l[2], LobbyInput::Command(Some(LobbyCommand::Boot(boot))), l[3], outs[2]),
        does(l[3], LobbyInput::Exchanged(boots), l[4], outs[3]),
    ensures
        outs[0].len() == 3,
        outs[0][0] matches LobbyOutput::Tell(LobbyEvent::Starting),
        outs[0][1] matches LobbyOutput::Tell(LobbyEvent::Connecting(t)) && t@ == connecting_text(
            msg->Starting_0.players@.len(),
        ),
        outs[0][2] matches LobbyOutput::Mesh { local_player, num_players } && local_player
            == msg->Starting_0.your_idx && num_players == msg->Starting_0.players@.len(),
        outs[1].len() == 0,
        outs[2].len() == 2,
        outs[2][0] matches LobbyOutput::Tell(LobbyEvent::Connecting(t)) && t@
            == "exchanging machine state…"@,
        outs[2][1] matches LobbyOutput::Exchange(b) && b@ == boot@,
        outs[3].len() == 1,
        outs[3][0] matches LobbyOutput::Tell(LobbyEvent::SessionReady(s)) && {
            &&& s.room_code@ == l[0].room_code
            &&& s.local_player == msg->Starting_0.your_idx
            &&& s.players@.len() == msg->Starting_0.players@.len()
            &&& 0 <= i < s.players@.len() ==> s.players@[i].nick@
                == msg->Starting_0.players@[i].nick@ && s.players@[i].rom_crc32
                == msg->Starting_0.players@[i].rom_crc32
            &&& s.boots@.len() == boots@.len()
            &&& 0 <= i < boots@.len() ==> s.boots@[i]@ == boots@[i]@
        },
        l[1].phase == LobbyPhase::Meshing,
        l[2].phase == LobbyPhase::AwaitingBoot,
        l[3].phase == LobbyPhase::Exchanging,
        l[4].phase == LobbyPhase::Idle,
        l[4].room_code == l[0].room_code,
        l[4].wireless == l[0].wireless,
        l[4].ice_servers == l[0].ice_servers,
        !l[4].dance,
{
    assert(outs[0].len() == outputs_view(outs[0]).len());
    assert(outs[1].len() == outputs_view(outs[1]).len());
    assert(outs[2].len() == outputs_view(outs[2]).len());
    assert(outs[3].len() == outputs_view(outs[3]).len());
    assert(outputs_view(outs[0])[0] == outs[0][0]@);
    assert(outputs_view(outs[0])[1] == outs[0][1]@);
    assert(outputs_view(outs[0])[2] == outs[0][2]@);
    assert(msg@->Starting_0.players.len() == msg->Starting_0.players@.len());
    assert(outputs_view(outs[2])[0] == outs[2][0]@);
    assert(outputs_view(outs[2])[1] == outs[2][1]@);
    let idle = LobbyView { phase: LobbyPhase::Idle, ..l[3] };
    assert(replayed(idle).out.len() == 0);
    assert(outputs_view(outs[3])[0] == outs[3][0]@);
    let s = outs[3][0]->Tell_0->SessionReady_0;
    let listed = msg->Starting_0.players@;
    assert(start_players_view(s.players@) == start_players_view(listed));
    assert(start_players_view(s.players@).len() == s.players@.len());
    assert(start_players_view(listed).len() == listed.len());
    if 0 <= i < s.players@.len() {
        assert(start_players_view(s.players@)[i] == s.players@[i]@);
        assert(start_players_view(listed)[i] == listed[i]@);
    }
    assert(crate::net::lobby::boots_view(s.boots@) == crate::net::lobby::boots_view(boots@));
    assert(crate::net::lobby::boots_view(s.boots@).len() == s.boots@.len());
    assert(crate::net::lobby::boots_view(boots@).len() == boots@.len());
    if 0 <= i < boots@.len() {
        assert(crate::net::lobby::boots_view(s.boots@)[i] == s.boots@[i]@);
        assert(crate::net::lobby::boots_view(boots@)[i] == boots@[i]@);
    }
}

/// How many peers a mesh connects to is how many others there are.
pub proof fn law_the_others_are_connected_to(num_players: nat)
    requires
        num_players >= 1,
    ensures
        connecting_text(num_players) == "connecting to "@ + crate::text::decimal(
            (num_players - 1) as nat,
        ) + " peer(s)…"@,
{
}

/// What comes while the mesh is coming up is set aside in order, and nothing is
/// said of it; a message that waited is then treated as it would have been in
/// an idle lobby.
pub proof fn law_what_waited_is_not_lost(
    l: LobbyView,
    msg: server_message::Msg,
    after: LobbyView,
    outs: Seq<LobbyOutput>,
)
    requires
        l.phase == LobbyPhase::Meshing,
        does(l, LobbyInput::Stray(msg), after, outs),
    ensures
        outs.len() == 0,
        after == (LobbyView { stray: l.stray.push(msg@), ..l }),
        forall|bytes: Seq<u8>| #[trigger]
            decoded::<ServerMessage>(bytes) == Some(ServerMessageView { msg: Some(msg@) })
                && l.stray.len() == 0 ==> {
                let idle = LobbyView { phase: LobbyPhase::Idle, ..l };
                let waited = LobbyView { phase: LobbyPhase::Idle, ..after };
                let fresh = lobby_step(
                    idle,
                    crate::net::lobby::LobbyInputView::Received(bytes),
                );
                replayed(waited) == fresh
            },
{
    assert(outs.len() == outputs_view(outs).len());
    let idle = LobbyView { phase: LobbyPhase::Idle, ..l };
    let waited = LobbyView { phase: LobbyPhase::Idle, ..after };
    if l.stray.len() == 0 {
        assert(waited.stray[0] == msg@);
        assert(waited.stray.skip(1) =~= l.stray);
        let first = crate::net::lobby::on_server(idle, msg@);
        assert(LobbyView { stray: waited.stray.skip(1), ..waited } =~= idle);
        assert(replayed(first.lobby) == crate::net::lobby::quiet(first.lobby));
        assert(first.out + Seq::<LobbyOutputView>::empty() =~= first.out);
        assert(replayed(waited) == first);
    }
}

/// Of two messages that waited and left the lobby idle, the first is treated
/// first, and both are.
pub proof fn law_what_waited_is_treated_in_order(
    l: LobbyView,
    a: server_message::MsgView,
    b: server_message::MsgView,
)
    requires
        l.phase == LobbyPhase::Idle,
        l.stray.len() == 0,
        crate::net::lobby::on_server(l, a).lobby.phase == LobbyPhase::Idle,
    ensures
        ({
            let first = crate::net::lobby::on_server(l, a);
            let second = crate::net::lobby::on_server(first.lobby, b);
            let both = replayed(LobbyView { stray: seq![a, b], ..l });
            both.lobby == second.lobby && both.out == first.out + second.out
        }),
{
    let two = LobbyView { stray: seq![a, b], ..l };
    let one = LobbyView { stray: seq![b], ..l };
    assert(two.stray.skip(1) =~= seq![b]);
    let first = crate::net::lobby::on_server(one, a);
    assert(first.lobby == (LobbyView {
        stray: seq![b],
        ..crate::net::lobby::on_server(l, a).lobby
    }));
    assert(first.out == crate::net::lobby::on_server(l, a).out);
    assert(first.lobby.stray.skip(1) =~= l.stray);
    let left = LobbyView { stray: first.lobby.stray.skip(1), ..first.lobby };
    assert(left =~= crate::net::lobby::on_server(l, a).lobby);
    let second = crate::net::lobby::on_server(left, b);
    assert(second.lobby.stray.len() == 0);
    assert(replayed(second.lobby) == crate::net::lobby::quiet(second.lobby));
    assert(second.out + Seq::<LobbyOutputView>::empty() =~= second.out);
    assert(replayed(first.lobby) == second);
}

/// A merge that failed is told with its reason, whatever it failed at. Who was
/// kicked meanwhile is out; a wireless room tries again three seconds later,
/// with the ready bit lowered then; a cable room idles and waits.
pub proof fn law_a_failed_merge(
    l: LobbyView,
    why: String,
    after: LobbyView,
    outs: Seq<LobbyOutput>,
)
    requires
        l.phase == LobbyPhase::Meshing || l.phase == LobbyPhase::Exchanging,
        does(l, LobbyInput::MergeFailed(why), after, outs),
    ensures
        ({
            let kicked = exists|i: int|
                0 <= i < l.stray.len() && (#[trigger] l.stray[i] matches
                    server_message::MsgView::Error(e) && kind_of(e.kind) == ErrorKind::Kicked);
            &&& kicked ==> {
                &&& after == (LobbyView { phase: LobbyPhase::Closed, ..l })
                &&& outs.len() == 2
                &&& outs[0] matches LobbyOutput::Tell(LobbyEvent::Kicked)
                &&& outs[1] is Close
            }
            &&& !kicked ==> outs.len() > 0 && (outs[0] matches LobbyOutput::Tell(
                LobbyEvent::MergeFailed(t),
            ) && t@ == "Couldn't link up: "@ + why@)
            &&& !kicked && l.wireless ==> {
                &&& after == (LobbyView { phase: LobbyPhase::Retrying, ..l })
                &&& outs.len() == 2
                &&& outs[1] matches LobbyOutput::ArmRetry(ms) && ms == 3000
            }
            &&& !kicked && !l.wireless && l.stray.len() == 0 ==> {
                &&& after == (LobbyView { phase: LobbyPhase::Idle, ..l })
                &&& outs.len() == 1
            }
        }),
{
    assert(outs.len() == outputs_view(outs).len());
    if outs.len() > 0 {
        assert(outputs_view(outs)[0] == outs[0]@);
    }
    if outs.len() > 1 {
        assert(outputs_view(outs)[1] == outs[1]@);
    }
}

/// When a retry is due the ready bit is lowered, and the lobby idles again.
pub proof fn law_a_retry_lowers_the_ready_bit(
    l: LobbyView,
    after: LobbyView,
    outs: Seq<LobbyOutput>,
)
    requires
        l.phase == LobbyPhase::Retrying,
        does(l, LobbyInput::RetryFired, after, outs),
    ensures
        outs.len() > 0,
        outs[0] matches LobbyOutput::Send(m) && m.msg matches Some(
            client_message::Msg::SetReady(s),
        ) && !s.ready,
        l.stray.len() == 0 ==> after == (LobbyView { phase: LobbyPhase::Idle, ..l }) && outs.len()
            == 1,
{
    assert(outs.len() == outputs_view(outs).len());
    assert(outputs_view(outs)[0] == outs[0]@);
}

// ---------------------------------------------------------------------
// What has to wait
// ---------------------------------------------------------------------

/// Whether a lobby reads something where it is: the server and the dance in the
/// room, commands there, before a retry and where a capture is awaited, what
/// the mesh says while it comes up, and what the exchange says while it runs.
pub open spec fn reads(phase: LobbyPhase, input: LobbyInput) -> bool {
    match input {
        LobbyInput::Received(_) | LobbyInput::SocketClosed | LobbyInput::DanceFired => phase
            == LobbyPhase::Idle,
        LobbyInput::Command(_) => phase == LobbyPhase::Idle || phase == LobbyPhase::Retrying
            || phase == LobbyPhase::AwaitingBoot,
        LobbyInput::Stray(_) | LobbyInput::MeshReady => phase == LobbyPhase::Meshing,
        LobbyInput::Exchanged(_) => phase == LobbyPhase::Exchanging,
        LobbyInput::MergeFailed(_) => phase == LobbyPhase::Meshing || phase
            == LobbyPhase::Exchanging,
        LobbyInput::RetryFired => phase == LobbyPhase::Retrying,
    }
}

/// What a lobby does not read where it is changes nothing.
pub proof fn law_what_is_not_read_changes_nothing(
    l: LobbyView,
    input: LobbyInput,
    after: LobbyView,
    outs: Seq<LobbyOutput>,
)
    requires
        !reads(l.phase, input),
        does(l, input, after, outs),
    ensures
        after == l,
        outs.len() == 0,
{
    assert(outs.len() == outputs_view(outs).len());
}

} // verus!
