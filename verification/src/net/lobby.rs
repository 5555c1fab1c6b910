//! The lobby client: the life of one machine in one room. Commands come in
//! from the UI, messages from the signaling server; state changes flow back as
//! [`LobbyEvent`]s.
//!
//! Rooms hold dynamic membership, so that life is a loop: idle in the room
//! until the server broadcasts a merge, build the mesh, exchange every side's
//! boot payload, hand the finished [`SessionBundle`] to the UI, and go back to
//! idling for the next merge. Wireless rooms merge on their own as membership
//! changes (a failed merge withdraws the ready bit so the server voids it and
//! re-fires on the next convergence); cable rooms gather until position 0
//! sends [`LobbyCommand::Start`], and re-link the same way.
use vstd::prelude::*;
use crate::signaling::client_message;
use crate::signaling::codec::decoded;
use crate::signaling::messages::{
    ice_servers_view, player_infos_view, start_players_view,
};
use crate::signaling::server_message;
use crate::signaling::{
    decode, kind_of, ClientMessage, ClientMessageView, CreateRoomView, ErrorKind, IceServer,
    IceServerView, JoinRoomView, KickPlayerView, LeaveView, PlayerInfo, PlayerInfoView,
    ServerMessage, SetReadyView, StartPlayer, StartPlayerView, StartView, StartingView,
    PROTOCOL_VERSION,
};
use crate::text::{decimal, push_decimal};

pub mod laws;

verus! {

/// How long a merge failure waits before withdrawing ready to arrange the
/// retry: enough to keep a systematically failing mesh from hot-looping the
/// whole room through capture stalls.
pub const MERGE_RETRY_MS: u32 = 3_000;

/// How long a dead-session report ([`LobbyCommand::Dropped`]) sits before
/// dancing the ready bit. A merge the server already broadcast may still be in
/// flight to us: the drop it recovers from would be stale, and an arriving
/// start cancels the dance.
pub const DROP_DANCE_MS: u32 = 2_500;

#[derive(Debug)]
pub enum LobbyCommand {
    /// The automatic "I have every ROM in this roster" report.
    SetReady { ready: bool },
    /// Position 0 only, cable rooms only: link the room up.
    Start,
    /// Position 0 only: throw a player out of the room, addressed by the
    /// roster's stable seat token.
    Kick { seat: u32 },
    /// The local machine's encoded boot payload, captured by the UI in
    /// response to [`LobbyEvent::Starting`].
    Boot(Vec<u8>),
    /// The merged session died under us without a roster change.
    Dropped,
    Leave,
}

#[derive(Debug)]
pub enum LobbyEvent {
    /// The room was created/joined; here's its code.
    Joined { code: String },
    Roster { players: Vec<PlayerInfo>, your_idx: usize },
    /// Non-fatal problem.
    Error(String),
    /// The lobby is dead; the UI should drop it.
    Fatal(String),
    /// Position 0 threw us out. The lobby is dead, and the link should unplug
    /// too.
    Kicked,
    /// A merge is beginning: capture the local machine and send it back as
    /// [`LobbyCommand::Boot`].
    Starting,
    /// Mesh progress line for the connecting overlay.
    Connecting(String),
    /// Everything is up: hand off to the session. The lobby stays alive.
    SessionReady(SessionBundle),
    /// The merge failed; the machine should resume solo while the lobby
    /// arranges the retry.
    MergeFailed(String),
}

/// What a netplay session boots from. The shared clock seed isn't here: it
/// rides position 0's boot payload over the peer protocol.
#[derive(Debug)]
pub struct SessionBundle {
    pub room_code: String,
    pub players: Vec<StartPlayer>,
    pub local_player: usize,
    /// Every side's encoded boot payload, in player order (exchanged over the
    /// mesh; the local slot is our own capture).
    pub boots: Vec<Vec<u8>>,
}

#[derive(Debug)]
pub enum LobbyMode {
    Create,
    Join { code: String },
}

#[derive(Debug)]
pub struct LobbyArgs {
    pub server_url: String,
    pub nick: String,
    pub rom_crc32: u32,
    pub rom_title: String,
    /// The local machine's link peripheral (fixed at launch). Sent on create,
    /// and checked against the roster on join: a machine launched with the
    /// other peripheral bows out before a merge builds it a link its game
    /// never booted with.
    pub wireless: bool,
    pub mode: LobbyMode,
}

/// The user-facing text for a server error. The wire carries only the kind;
/// the words are the client's.
pub open spec fn shown_error(kind: ErrorKind) -> Seq<char> {
    match kind {
        ErrorKind::ProtocolVersionMismatch => "This build is out of date — reload the app."@,
        ErrorKind::RoomNotFound => "No room with that code."@,
        ErrorKind::RoomFull => "That room is full."@,
        ErrorKind::RoomAlreadyStarted => "That room already started."@,
        ErrorKind::NotHost => "Only the room's creator can do that."@,
        ErrorKind::NotEveryoneReady => "The room can't link up yet."@,
        ErrorKind::Kicked => "The room's creator removed you."@,
        ErrorKind::Malformed => "The server rejected that."@,
        ErrorKind::Internal => "The server rejected that."@,
        ErrorKind::Unspecified => "The server rejected that."@,
    }
}

pub fn error_text(kind: ErrorKind) -> (t: &'static str)
    ensures
        t@ == shown_error(kind),
{
    match kind {
        ErrorKind::ProtocolVersionMismatch => "This build is out of date — reload the app.",
        ErrorKind::RoomNotFound => "No room with that code.",
        ErrorKind::RoomFull => "That room is full.",
        ErrorKind::RoomAlreadyStarted => "That room already started.",
        ErrorKind::NotHost => "Only the room's creator can do that.",
        ErrorKind::NotEveryoneReady => "The room can't link up yet.",
        ErrorKind::Kicked => "The room's creator removed you.",
        ErrorKind::Malformed => "The server rejected that.",
        ErrorKind::Internal => "The server rejected that.",
        ErrorKind::Unspecified => "The server rejected that.",
    }
}

/// Errors that end the membership.
pub open spec fn is_fatal(kind: ErrorKind) -> bool {
    kind == ErrorKind::ProtocolVersionMismatch || kind == ErrorKind::RoomNotFound || kind
        == ErrorKind::RoomFull || kind == ErrorKind::RoomAlreadyStarted
}

/// What is said to a machine with the other peripheral.
pub open spec fn wrong_peripheral(room_wireless: bool) -> Seq<char> {
    "This room plays over the "@ + (if room_wireless {
        "wireless adapter"@
    } else {
        "link cable"@
    }) + " — relaunch the game with it to join."@
}

/// What is said while the mesh comes up.
pub open spec fn connecting_text(num_players: nat) -> Seq<char> {
    "connecting to "@ + decimal(
        if num_players == 0 {
            0
        } else {
            (num_players - 1) as nat
        },
    ) + " peer(s)…"@
}

// ---------------------------------------------------------------------
// What goes in and out
// ---------------------------------------------------------------------

/// What happens to a lobby. Server messages are for an idle lobby (a mesh that
/// is coming up reads its own), commands for one that is idle, awaits the boot
/// payload or is about to retry; at other times they are left waiting.
#[derive(Debug)]
pub enum LobbyInput {
    /// A message came from the server.
    Received(Vec<u8>),
    /// The server is gone.
    SocketClosed,
    /// A command came from the UI; `None` where it has gone.
    Command(Option<LobbyCommand>),
    /// The ready dance is due.
    DanceFired,
    /// While the mesh came up: a message it had no use for.
    Stray(server_message::Msg),
    /// The mesh is up.
    MeshReady,
    /// Every side's boot payload is here, in player order.
    Exchanged(Vec<Vec<u8>>),
    /// The merge failed, and why.
    MergeFailed(String),
    /// The pause before a retry is over.
    RetryFired,
}

/// What a lobby does.
#[derive(Debug)]
pub enum LobbyOutput {
    /// Send to the server.
    Send(ClientMessage),
    /// Tell the UI.
    Tell(LobbyEvent),
    /// Have the ready dance fire after this many milliseconds, instead of any
    /// time before.
    ArmDance(u32),
    /// Have the retry fire after this many milliseconds.
    ArmRetry(u32),
    /// Build the mesh.
    Mesh { local_player: usize, num_players: usize },
    /// Exchange boot payloads, this one being ours.
    Exchange(Vec<u8>),
    /// Close the connection: the lobby is over.
    Close,
}

/// What a [`LobbyEvent`] says.
#[verifier::ext_equal]
pub enum LobbyEventView {
    Joined { code: Seq<char> },
    Roster { players: Seq<PlayerInfoView>, your_idx: nat },
    Error(Seq<char>),
    Fatal(Seq<char>),
    Kicked,
    Starting,
    Connecting(Seq<char>),
    SessionReady {
        room_code: Seq<char>,
        players: Seq<StartPlayerView>,
        local_player: nat,
        boots: Seq<Seq<u8>>,
    },
    MergeFailed(Seq<char>),
}

/// What a list of boot payloads says.
pub open spec fn boots_view(b: Seq<Vec<u8>>) -> Seq<Seq<u8>> {
    b.map_values(|v: Vec<u8>| v@)
}

impl View for LobbyEvent {
    type V = LobbyEventView;

    open spec fn view(&self) -> LobbyEventView {
        match *self {
            LobbyEvent::Joined { code } => LobbyEventView::Joined { code: code@ },
            LobbyEvent::Roster { players, your_idx } => LobbyEventView::Roster {
                players: player_infos_view(players@),
                your_idx: your_idx as nat,
            },
            LobbyEvent::Error(t) => LobbyEventView::Error(t@),
            LobbyEvent::Fatal(t) => LobbyEventView::Fatal(t@),
            LobbyEvent::Kicked => LobbyEventView::Kicked,
            LobbyEvent::Starting => LobbyEventView::Starting,
            LobbyEvent::Connecting(t) => LobbyEventView::Connecting(t@),
            LobbyEvent::SessionReady(b) => LobbyEventView::SessionReady {
                room_code: b.room_code@,
                players: start_players_view(b.players@),
                local_player: b.local_player as nat,
                boots: boots_view(b.boots@),
            },
            LobbyEvent::MergeFailed(t) => LobbyEventView::MergeFailed(t@),
        }
    }
}

/// What a [`LobbyOutput`] says.
#[verifier::ext_equal]
pub enum LobbyOutputView {
    Send(ClientMessageView),
    Tell(LobbyEventView),
    ArmDance(u32),
    ArmRetry(u32),
    Mesh { local_player: nat, num_players: nat },
    Exchange(Seq<u8>),
    Close,
}

impl View for LobbyOutput {
    type V = LobbyOutputView;

    open spec fn view(&self) -> LobbyOutputView {
        match *self {
            LobbyOutput::Send(m) => LobbyOutputView::Send(m@),
            LobbyOutput::Tell(e) => LobbyOutputView::Tell(e@),
            LobbyOutput::ArmDance(ms) => LobbyOutputView::ArmDance(ms),
            LobbyOutput::ArmRetry(ms) => LobbyOutputView::ArmRetry(ms),
            LobbyOutput::Mesh { local_player, num_players } => LobbyOutputView::Mesh {
                local_player: local_player as nat,
                num_players: num_players as nat,
            },
            LobbyOutput::Exchange(b) => LobbyOutputView::Exchange(b@),
            LobbyOutput::Close => LobbyOutputView::Close,
        }
    }
}

/// What a list of outputs says.
pub open spec fn outputs_view(o: Seq<LobbyOutput>) -> Seq<LobbyOutputView> {
    o.map_values(|x: LobbyOutput| x@)
}

/// What a [`LobbyInput`] says.
pub enum LobbyInputView {
    Received(Seq<u8>),
    SocketClosed,
    Command(Option<LobbyCommandView>),
    DanceFired,
    Stray(server_message::MsgView),
    MeshReady,
    Exchanged(Seq<Seq<u8>>),
    MergeFailed(Seq<char>),
    RetryFired,
}

/// What a [`LobbyCommand`] says.
pub enum LobbyCommandView {
    SetReady { ready: bool },
    Start,
    Kick { seat: u32 },
    Boot(Seq<u8>),
    Dropped,
    Leave,
}

impl View for LobbyCommand {
    type V = LobbyCommandView;

    open spec fn view(&self) -> LobbyCommandView {
        match *self {
            LobbyCommand::SetReady { ready } => LobbyCommandView::SetReady { ready },
            LobbyCommand::Start => LobbyCommandView::Start,
            LobbyCommand::Kick { seat } => LobbyCommandView::Kick { seat },
            LobbyCommand::Boot(b) => LobbyCommandView::Boot(b@),
            LobbyCommand::Dropped => LobbyCommandView::Dropped,
            LobbyCommand::Leave => LobbyCommandView::Leave,
        }
    }
}

/// What a command says, where there is one.
pub open spec fn command_view(c: Option<LobbyCommand>) -> Option<LobbyCommandView> {
    match c {
        Some(c) => Some(c@),
        None => None,
    }
}

impl View for LobbyInput {
    type V = LobbyInputView;

    open spec fn view(&self) -> LobbyInputView {
        match *self {
            LobbyInput::Received(b) => LobbyInputView::Received(b@),
            LobbyInput::SocketClosed => LobbyInputView::SocketClosed,
            LobbyInput::Command(c) => LobbyInputView::Command(command_view(c)),
            LobbyInput::DanceFired => LobbyInputView::DanceFired,
            LobbyInput::Stray(m) => LobbyInputView::Stray(m@),
            LobbyInput::MeshReady => LobbyInputView::MeshReady,
            LobbyInput::Exchanged(b) => LobbyInputView::Exchanged(boots_view(b@)),
            LobbyInput::MergeFailed(t) => LobbyInputView::MergeFailed(t@),
            LobbyInput::RetryFired => LobbyInputView::RetryFired,
        }
    }
}

// ---------------------------------------------------------------------
// What a lobby is
// ---------------------------------------------------------------------

/// What a lobby is at.
#[derive(Debug, Clone, Copy, PartialEq, Eq, Structural)]
pub enum LobbyPhase {
    /// In the room, between merges.
    Idle,
    /// The mesh is coming up; commands wait.
    Meshing,
    /// The mesh is up, and the machine's capture is awaited.
    AwaitingBoot,
    /// Boot payloads are crossing the mesh; commands wait.
    Exchanging,
    /// A merge failed; the retry is due after a pause.
    Retrying,
    /// Over.
    Closed,
}

/// The life of one machine in one room.
#[derive(Debug)]
pub struct Lobby {
    pub wireless: bool,
    pub phase: LobbyPhase,
    /// A dead session was reported, and the ready bit is to dance.
    pub dance: bool,
    pub room_code: String,
    /// The mesh's server list, from the server's greeting.
    pub ice_servers: Vec<IceServer>,
    /// Server messages a merge read off the socket but couldn't handle (the
    /// room's life goes on while a mesh comes up); idling replays them before
    /// touching new traffic.
    pub stray: Vec<server_message::Msg>,
    /// Who is merging.
    pub players: Vec<StartPlayer>,
    pub local_player: usize,
}

/// What a [`Lobby`] says.
#[verifier::ext_equal]
pub struct LobbyView {
    pub wireless: bool,
    pub phase: LobbyPhase,
    pub dance: bool,
    pub room_code: Seq<char>,
    pub ice_servers: Seq<IceServerView>,
    pub stray: Seq<server_message::MsgView>,
    pub players: Seq<StartPlayerView>,
    pub local_player: nat,
}

/// What a list of messages says.
pub open spec fn msgs_view(s: Seq<server_message::Msg>) -> Seq<server_message::MsgView> {
    s.map_values(|m: server_message::Msg| m@)
}

impl View for Lobby {
    type V = LobbyView;

    open spec fn view(&self) -> LobbyView {
        LobbyView {
            wireless: self.wireless,
            phase: self.phase,
            dance: self.dance,
            room_code: self.room_code@,
            ice_servers: ice_servers_view(self.ice_servers@),
            stray: msgs_view(self.stray@),
            players: start_players_view(self.players@),
            local_player: self.local_player as nat,
        }
    }
}

/// A lobby after something happened, and what it does.
#[verifier::ext_equal]
pub struct LobbyStep {
    pub lobby: LobbyView,
    pub out: Seq<LobbyOutputView>,
}

/// Nothing to do.
pub open spec fn quiet(l: LobbyView) -> LobbyStep {
    LobbyStep { lobby: l, out: Seq::empty() }
}

/// One thing to tell the UI.
pub open spec fn told(l: LobbyView, e: LobbyEventView) -> LobbyStep {
    LobbyStep { lobby: l, out: seq![LobbyOutputView::Tell(e)] }
}

/// One thing to send to the server.
pub open spec fn sent(l: LobbyView, m: client_message::MsgView) -> LobbyStep {
    LobbyStep { lobby: l, out: seq![LobbyOutputView::Send(ClientMessageView { msg: Some(m) })] }
}

/// The lobby is over, and the UI hears this first.
pub open spec fn over(l: LobbyView, e: LobbyEventView) -> LobbyStep {
    LobbyStep {
        lobby: LobbyView { phase: LobbyPhase::Closed, ..l },
        out: seq![LobbyOutputView::Tell(e), LobbyOutputView::Close],
    }
}

/// The user walks out of the room.
pub open spec fn walked_out(l: LobbyView) -> LobbyStep {
    LobbyStep {
        lobby: LobbyView { phase: LobbyPhase::Closed, ..l },
        out: seq![
            LobbyOutputView::Send(
                ClientMessageView { msg: Some(client_message::MsgView::Leave(LeaveView {  })) },
            ),
            LobbyOutputView::Close,
        ],
    }
}

/// What an idle lobby does with a server message.
pub open spec fn on_server(l: LobbyView, m: server_message::MsgView) -> LobbyStep {
    match m {
        server_message::MsgView::Hello(h) => quiet(LobbyView { ice_servers: h.ice_servers, ..l }),
        server_message::MsgView::RoomCreated(r) => told(
            LobbyView { room_code: r.code, ..l },
            LobbyEventView::Joined { code: r.code },
        ),
        server_message::MsgView::RoomJoined(r) => told(
            LobbyView { room_code: r.code, ..l },
            LobbyEventView::Joined { code: r.code },
        ),
        server_message::MsgView::Roster(r) => if r.wireless != l.wireless {
            over(l, LobbyEventView::Fatal(wrong_peripheral(r.wireless)))
        } else {
            told(
                l,
                LobbyEventView::Roster { players: r.players, your_idx: r.your_idx as nat },
            )
        },
        server_message::MsgView::Error(e) => {
            let kind = kind_of(e.kind);
            if kind == ErrorKind::Kicked {
                over(l, LobbyEventView::Kicked)
            } else if is_fatal(kind) {
                over(l, LobbyEventView::Fatal(shown_error(kind)))
            } else {
                told(l, LobbyEventView::Error(shown_error(kind)))
            }
        },
        server_message::MsgView::Starting(s) => LobbyStep {
            lobby: LobbyView {
                phase: LobbyPhase::Meshing,
                dance: false,
                players: s.players,
                local_player: s.your_idx as nat,
                ..l
            },
            out: seq![
                LobbyOutputView::Tell(LobbyEventView::Starting),
                LobbyOutputView::Tell(LobbyEventView::Connecting(connecting_text(s.players.len()))),
                LobbyOutputView::Mesh {
                    local_player: s.your_idx as nat,
                    num_players: s.players.len(),
                },
            ],
        },
        server_message::MsgView::PeerLeft(_) => quiet(l),
        server_message::MsgView::Signal(_) => quiet(l),
    }
}

/// What an idle lobby does with a command.
pub open spec fn on_command(l: LobbyView, c: Option<LobbyCommandView>) -> LobbyStep {
    match c {
        Some(LobbyCommandView::SetReady { ready }) => sent(
            l,
            client_message::MsgView::SetReady(SetReadyView { ready }),
        ),
        Some(LobbyCommandView::Start) => sent(l, client_message::MsgView::Start(StartView {  })),
        Some(LobbyCommandView::Kick { seat }) => sent(
            l,
            client_message::MsgView::KickPlayer(KickPlayerView { seat }),
        ),
        Some(LobbyCommandView::Dropped) => if l.wireless {
            LobbyStep {
                lobby: LobbyView { dance: true, ..l },
                out: seq![LobbyOutputView::ArmDance(DROP_DANCE_MS)],
            }
        } else {
            quiet(l)
        },
        Some(LobbyCommandView::Boot(_)) => quiet(l),
        Some(LobbyCommandView::Leave) => walked_out(l),
        None => walked_out(l),
    }
}

/// An idle lobby with its stray messages replayed, in order, until one of them
/// ends the idling.
pub open spec fn replayed(l: LobbyView) -> LobbyStep
    decreases l.stray.len(),
{
    if l.phase != LobbyPhase::Idle || l.stray.len() == 0 {
        quiet(l)
    } else {
        let rest = LobbyView { stray: l.stray.skip(1), ..l };
        let first = on_server(rest, l.stray[0]);
        let more = replayed(first.lobby);
        LobbyStep { lobby: more.lobby, out: first.out + more.out }
    }
}

/// Back to idling, after some outputs.
pub open spec fn idling(l: LobbyView, out: Seq<LobbyOutputView>) -> LobbyStep {
    let r = replayed(LobbyView { phase: LobbyPhase::Idle, ..l });
    LobbyStep { lobby: r.lobby, out: out + r.out }
}

/// Whether a kick is among the stray messages.
pub open spec fn kick_among(stray: Seq<server_message::MsgView>) -> bool {
    exists|i: int|
        0 <= i < stray.len() && (#[trigger] stray[i] matches server_message::MsgView::Error(e)
            && kind_of(e.kind) == ErrorKind::Kicked)
}

/// A merge that failed: being kicked meanwhile ends the lobby; a wireless room
/// retries after a pause; a cable room waits for position 0.
pub open spec fn merge_failed(l: LobbyView, why: Seq<char>) -> LobbyStep {
    let told_why = LobbyOutputView::Tell(
        LobbyEventView::MergeFailed("Couldn't link up: "@ + why),
    );
    if kick_among(l.stray) {
        over(l, LobbyEventView::Kicked)
    } else if l.wireless {
        LobbyStep {
            lobby: LobbyView { phase: LobbyPhase::Retrying, ..l },
            out: seq![told_why, LobbyOutputView::ArmRetry(MERGE_RETRY_MS)],
        }
    } else {
        idling(l, seq![told_why])
    }
}

/// What a lobby does with a command while a retry is due.
pub open spec fn on_retry_command(l: LobbyView, c: Option<LobbyCommandView>) -> LobbyStep {
    match c {
        Some(LobbyCommandView::Boot(_)) => quiet(l),
        Some(LobbyCommandView::Dropped) => quiet(l),
        _ => on_command(l, c),
    }
}

/// What a lobby does.
pub open spec fn lobby_step(l: LobbyView, input: LobbyInputView) -> LobbyStep {
    match (l.phase, input) {
        (LobbyPhase::Idle, LobbyInputView::Received(b)) => match decoded::<ServerMessage>(b) {
            Some(m) => match m.msg {
                Some(m) => on_server(l, m),
                None => quiet(l),
            },
            None => quiet(l),
        },
        (LobbyPhase::Idle, LobbyInputView::SocketClosed) => over(
            l,
            LobbyEventView::Fatal("signaling connection closed"@),
        ),
        (LobbyPhase::Idle, LobbyInputView::Command(c)) => on_command(l, c),
        (LobbyPhase::Idle, LobbyInputView::DanceFired) => if l.dance {
            sent(
                LobbyView { dance: false, ..l },
                client_message::MsgView::SetReady(SetReadyView { ready: false }),
            )
        } else {
            quiet(l)
        },
        (LobbyPhase::Meshing, LobbyInputView::Stray(m)) => quiet(
            LobbyView { stray: l.stray.push(m), ..l },
        ),
        (LobbyPhase::Meshing, LobbyInputView::MeshReady) => quiet(
            LobbyView { phase: LobbyPhase::AwaitingBoot, ..l },
        ),
        (LobbyPhase::Meshing, LobbyInputView::MergeFailed(why)) => merge_failed(l, why),
        (LobbyPhase::AwaitingBoot, LobbyInputView::Command(c)) => match c {
            Some(LobbyCommandView::Boot(b)) => LobbyStep {
                lobby: LobbyView { phase: LobbyPhase::Exchanging, ..l },
                out: seq![
                    LobbyOutputView::Tell(
                        LobbyEventView::Connecting("exchanging machine state…"@),
                    ),
                    LobbyOutputView::Exchange(b),
                ],
            },
            Some(LobbyCommandView::Leave) => walked_out(l),
            None => walked_out(l),
            _ => quiet(l),
        },
        (LobbyPhase::Exchanging, LobbyInputView::Exchanged(boots)) => idling(
            l,
            seq![
                LobbyOutputView::Tell(
                    LobbyEventView::SessionReady {
                        room_code: l.room_code,
                        players: l.players,
                        local_player: l.local_player,
                        boots,
                    },
                ),
            ],
        ),
        (LobbyPhase::Exchanging, LobbyInputView::MergeFailed(why)) => merge_failed(l, why),
        (LobbyPhase::Retrying, LobbyInputView::Command(c)) => on_retry_command(l, c),
        (LobbyPhase::Retrying, LobbyInputView::RetryFired) => idling(
            l,
            seq![
                LobbyOutputView::Send(
                    ClientMessageView {
                        msg: Some(
                            client_message::MsgView::SetReady(SetReadyView { ready: false }),
                        ),
                    },
                ),
            ],
        ),
        _ => quiet(l),
    }
}

// ---------------------------------------------------------------------
// A lobby, run
// ---------------------------------------------------------------------

/// What a lobby opens with.
pub open spec fn opening(args: LobbyArgs) -> client_message::MsgView {
    match args.mode {
        LobbyMode::Create => client_message::MsgView::CreateRoom(
            CreateRoomView {
                protocol_version: PROTOCOL_VERSION,
                nick: args.nick@,
                rom_crc32: args.rom_crc32,
                rom_title: args.rom_title@,
                wireless: args.wireless,
            },
        ),
        LobbyMode::Join { code } => client_message::MsgView::JoinRoom(
            JoinRoomView {
                protocol_version: PROTOCOL_VERSION,
                code: code@,
                nick: args.nick@,
                rom_crc32: args.rom_crc32,
                rom_title: args.rom_title@,
            },
        ),
    }
}

fn push_out(out: &mut Vec<LobbyOutput>, x: LobbyOutput)
    ensures
        outputs_view(final(out)@) == outputs_view(old(out)@).push(x@),
{
    let ghost v = x@;
    out.push(x);
    assert(outputs_view(out@) =~= outputs_view(old(out)@).push(v));
}

impl Lobby {
    /// Enter a room: the lobby, and the first message to the server.
    pub fn open(args: &LobbyArgs) -> (r: (Lobby, ClientMessage))
        ensures
            r.0@ == (LobbyView {
                wireless: args.wireless,
                phase: LobbyPhase::Idle,
                dance: false,
                room_code: Seq::empty(),
                ice_servers: Seq::empty(),
                stray: Seq::empty(),
                players: Seq::empty(),
                local_player: 0,
            }),
            r.1@.msg == Some(opening(*args)),
    {
        let first = match &args.mode {
            LobbyMode::Create => ClientMessage::create_room(
                args.nick.as_str(),
                args.rom_crc32,
                args.rom_title.as_str(),
                args.wireless,
            ),
            LobbyMode::Join { code } => ClientMessage::join_room(
                code.as_str(),
                args.nick.as_str(),
                args.rom_crc32,
                args.rom_title.as_str(),
            ),
        };
        let lobby = Lobby {
            wireless: args.wireless,
            phase: LobbyPhase::Idle,
            dance: false,
            room_code: String::new(),
            ice_servers: Vec::new(),
            stray: Vec::new(),
            players: Vec::new(),
            local_player: 0,
        };
        proof {
            assert(lobby@.ice_servers =~= Seq::empty());
            assert(lobby@.stray =~= Seq::empty());
            assert(lobby@.players =~= Seq::empty());
        }
        (lobby, first)
    }

    fn tell(&self, e: LobbyEvent, out: &mut Vec<LobbyOutput>)
        ensures
            outputs_view(final(out)@) == outputs_view(old(out)@).push(LobbyOutputView::Tell(e@)),
    {
        push_out(out, LobbyOutput::Tell(e));
    }

    fn end_with(&mut self, e: LobbyEvent, out: &mut Vec<LobbyOutput>)
        ensures
            final(self)@ == over(old(self)@, e@).lobby,
            outputs_view(final(out)@) == outputs_view(old(out)@) + over(old(self)@, e@).out,
    {
        let ghost ev = e@;
        self.phase = LobbyPhase::Closed;
        push_out(out, LobbyOutput::Tell(e));
        push_out(out, LobbyOutput::Close);
        assert(outputs_view(out@) =~= outputs_view(old(out)@) + over(old(self)@, ev).out);
    }

    fn walk_out(&mut self, out: &mut Vec<LobbyOutput>)
        ensures
            final(self)@ == walked_out(old(self)@).lobby,
            outputs_view(final(out)@) == outputs_view(old(out)@) + walked_out(old(self)@).out,
    {
        self.phase = LobbyPhase::Closed;
        push_out(out, LobbyOutput::Send(ClientMessage::leave()));
        push_out(out, LobbyOutput::Close);
        assert(outputs_view(out@) =~= outputs_view(old(out)@) + walked_out(old(self)@).out);
    }

    /// One server message while idle.
    pub fn handle_server_msg(&mut self, msg: server_message::Msg, out: &mut Vec<LobbyOutput>)
        ensures
            final(self)@ == on_server(old(self)@, msg@).lobby,
            outputs_view(final(out)@) == outputs_view(old(out)@) + on_server(
                old(self)@,
                msg@,
            ).out,
    {
        let ghost m = msg@;
        let ghost want = on_server(self@, m);
        match msg {
            server_message::Msg::Hello(h) => {
                self.ice_servers = h.ice_servers;
            },
            server_message::Msg::RoomCreated(r) => {
                self.room_code = r.code.clone();
                self.tell(LobbyEvent::Joined { code: r.code }, out);
            },
            server_message::Msg::RoomJoined(r) => {
                self.room_code = r.code.clone();
                self.tell(LobbyEvent::Joined { code: r.code }, out);
            },
            server_message::Msg::Roster(r) => {
                if r.wireless != self.wireless {
                    let mut t = "This room plays over the ".to_owned();
                    t.append(
                        if r.wireless {
                            "wireless adapter"
                        } else {
                            "link cable"
                        },
                    );
                    t.append(" — relaunch the game with it to join.");
                    self.end_with(LobbyEvent::Fatal(t), out);
                } else {
                    self.tell(
                        LobbyEvent::Roster { players: r.players, your_idx: r.your_idx as usize },
                        out,
                    );
                }
            },
            server_message::Msg::Error(e) => {
                let kind = e.kind();
                match kind {
                    ErrorKind::Kicked => {
                        self.end_with(LobbyEvent::Kicked, out);
                    },
                    ErrorKind::ProtocolVersionMismatch => {
                        self.end_with(LobbyEvent::Fatal(error_text(kind).to_owned()), out);
                    },
                    ErrorKind::RoomNotFound => {
                        self.end_with(LobbyEvent::Fatal(error_text(kind).to_owned()), out);
                    },
                    ErrorKind::RoomFull => {
                        self.end_with(LobbyEvent::Fatal(error_text(kind).to_owned()), out);
                    },
                    ErrorKind::RoomAlreadyStarted => {
                        self.end_with(LobbyEvent::Fatal(error_text(kind).to_owned()), out);
                    },
                    _ => {
                        self.tell(LobbyEvent::Error(error_text(kind).to_owned()), out);
                    },
                }
            },
            server_message::Msg::Starting(s) => {
                let n: usize = s.players.len();
                self.phase = LobbyPhase::Meshing;
                self.dance = false;
                self.players = s.players;
                self.local_player = s.your_idx as usize;
                self.tell(LobbyEvent::Starting, out);
                let mut t = "connecting to ".to_owned();
                push_decimal(
                    &mut t,
                    if n == 0 {
                        0
                    } else {
                        (n - 1) as u64
                    },
                );
                t.append(" peer(s)…");
                self.tell(LobbyEvent::Connecting(t), out);
                push_out(
                    out,
                    LobbyOutput::Mesh { local_player: s.your_idx as usize, num_players: n },
                );
            },
            server_message::Msg::PeerLeft(_) => {},
            server_message::Msg::Signal(_) => {},
        }
        proof {
            assert(outputs_view(out@) =~= outputs_view(old(out)@) + want.out);
            assert(self@ =~= want.lobby);
        }
    }

    /// One command while idle.
    fn handle_command(&mut self, c: Option<LobbyCommand>, out: &mut Vec<LobbyOutput>)
        ensures
            ({
                let cv = command_view(c);
                &&& final(self)@ == on_command(old(self)@, cv).lobby
                &&& outputs_view(final(out)@) == outputs_view(old(out)@) + on_command(
                    old(self)@,
                    cv,
                ).out
            }),
    {
        let ghost cv = command_view(c);
        let ghost want = on_command(self@, cv);
        match c {
            Some(LobbyCommand::SetReady { ready }) => {
                push_out(out, LobbyOutput::Send(ClientMessage::set_ready(ready)));
            },
            Some(LobbyCommand::Start) => {
                push_out(out, LobbyOutput::Send(ClientMessage::start()));
            },
            Some(LobbyCommand::Kick { seat }) => {
                push_out(out, LobbyOutput::Send(ClientMessage::kick_player(seat)));
            },
            Some(LobbyCommand::Dropped) => {
                if self.wireless {
                    self.dance = true;
                    push_out(out, LobbyOutput::ArmDance(DROP_DANCE_MS));
                }
            },
            Some(LobbyCommand::Boot(_)) => {},
            Some(LobbyCommand::Leave) => {
                self.walk_out(out);
            },
            None => {
                self.walk_out(out);
            },
        }
        assert(outputs_view(out@) =~= outputs_view(old(out)@) + want.out);
    }

    /// Go back to idling: replay what a merge set aside before touching new
    /// traffic.
    fn go_idle(&mut self, out: &mut Vec<LobbyOutput>)
        ensures
            final(self)@ == idling(old(self)@, outputs_view(old(out)@)).lobby,
            outputs_view(final(out)@) == idling(old(self)@, outputs_view(old(out)@)).out,
    {
        self.phase = LobbyPhase::Idle;
        let ghost start = self@;
        let ghost had = outputs_view(out@);
        let ghost want = replayed(start);
        proof {
            assert(start =~= LobbyView { phase: LobbyPhase::Idle, ..old(self)@ });
        }
        loop
            invariant_except_break
                outputs_view(out@) + replayed(self@).out == had + want.out,
                replayed(self@).lobby == want.lobby,
            ensures
                outputs_view(out@) == had + want.out,
                self@ == want.lobby,
            decreases self.stray@.len(),
        {
            let idle = match self.phase {
                LobbyPhase::Idle => true,
                _ => false,
            };
            if !idle || self.stray.len() == 0 {
                assert(outputs_view(out@) + Seq::<LobbyOutputView>::empty() =~= outputs_view(out@));
                break;
            }
            let ghost before = self@;
            let ghost said = outputs_view(out@);
            let m = self.stray.remove(0);
            proof {
                assert(self@.stray =~= before.stray.skip(1));
                assert(m@ == before.stray[0]);
                assert(self@ =~= LobbyView { stray: before.stray.skip(1), ..before });
            }
            let ghost rest = self@;
            self.handle_server_msg(m, out);
            proof {
                let first = on_server(rest, before.stray[0]);
                assert((said + first.out) + replayed(self@).out =~= said + (first.out + replayed(
                    self@,
                ).out));
            }
        }
    }

    fn kicked_meanwhile(&self) -> (b: bool)
        ensures
            b == kick_among(self@.stray),
    {
        let mut i: usize = 0;
        while i < self.stray.len()
            invariant
                i <= self.stray@.len(),
                forall|k: int|
                    0 <= k < i ==> !(#[trigger] self@.stray[k] matches server_message::MsgView::Error(
                        e,
                    ) && kind_of(e.kind) == ErrorKind::Kicked),
            decreases self.stray@.len() - i,
        {
            assert(self@.stray[i as int] == self.stray@[i as int]@);
            match &self.stray[i] {
                server_message::Msg::Error(e) => match e.kind() {
                    ErrorKind::Kicked => {
                        return true;
                    },
                    _ => {},
                },
                _ => {},
            }
            i = i + 1;
        }
        false
    }

    fn fail_merge(&mut self, why: String, out: &mut Vec<LobbyOutput>)
        requires
            old(out)@.len() == 0,
        ensures
            final(self)@ == merge_failed(old(self)@, why@).lobby,
            outputs_view(final(out)@) == merge_failed(old(self)@, why@).out,
    {
        proof {
            assert(outputs_view(out@) =~= Seq::<LobbyOutputView>::empty());
        }
        if self.kicked_meanwhile() {
            self.end_with(LobbyEvent::Kicked, out);
            assert(outputs_view(out@) =~= over(old(self)@, LobbyEventView::Kicked).out);
            return;
        }
        let mut t = "Couldn't link up: ".to_owned();
        t.append(why.as_str());
        self.tell(LobbyEvent::MergeFailed(t), out);
        let ghost told_why = LobbyOutputView::Tell(
            LobbyEventView::MergeFailed("Couldn't link up: "@ + why@),
        );
        proof {
            assert(outputs_view(out@) =~= seq![told_why]);
        }
        if self.wireless {
            self.phase = LobbyPhase::Retrying;
            push_out(out, LobbyOutput::ArmRetry(MERGE_RETRY_MS));
            assert(outputs_view(out@) =~= seq![
                told_why,
                LobbyOutputView::ArmRetry(MERGE_RETRY_MS),
            ]);
        } else {
            self.go_idle(out);
        }
    }

    /// What the lobby does with what happened.
    pub fn step(&mut self, input: LobbyInput) -> (out: Vec<LobbyOutput>)
        ensures
            final(self)@ == lobby_step(old(self)@, input@).lobby,
            outputs_view(out@) == lobby_step(old(self)@, input@).out,
    {
        let mut out: Vec<LobbyOutput> = Vec::new();
        let ghost was = self@;
        let ghost inp = input@;
        let ghost want = lobby_step(was, inp);
        let ghost nothing = Seq::<LobbyOutputView>::empty();
        proof {
            assert(outputs_view(out@) =~= nothing);
            assert(forall|o: Seq<LobbyOutputView>| #[trigger] (nothing + o) =~= o);
        }
        match (self.phase, input) {
            (LobbyPhase::Idle, LobbyInput::Received(bytes)) => {
                match decode::<ServerMessage>(bytes.as_slice()) {
                    Ok(m) => match m.msg {
                        Some(m) => {
                            self.handle_server_msg(m, &mut out);
                        },
                        None => {},
                    },
                    Err(_) => {},
                }
            },
            (LobbyPhase::Idle, LobbyInput::SocketClosed) => {
                self.end_with(
                    LobbyEvent::Fatal("signaling connection closed".to_owned()),
                    &mut out,
                );
            },
            (LobbyPhase::Idle, LobbyInput::Command(c)) => {
                self.handle_command(c, &mut out);
            },
            (LobbyPhase::Idle, LobbyInput::DanceFired) => {
                // The dead merge's ready bit comes down; the roster echo has
                // the UI re-assert it, and the server re-merges the room once
                // everyone converges.
                if self.dance {
                    self.dance = false;
                    push_out(&mut out, LobbyOutput::Send(ClientMessage::set_ready(false)));
                }
            },
            (LobbyPhase::Meshing, LobbyInput::Stray(m)) => {
                let ghost before = self.stray@;
                let ghost mv = m@;
                self.stray.push(m);
                assert(msgs_view(self.stray@) =~= msgs_view(before).push(mv));
            },
            (LobbyPhase::Meshing, LobbyInput::MeshReady) => {
                self.phase = LobbyPhase::AwaitingBoot;
            },
            (LobbyPhase::Meshing, LobbyInput::MergeFailed(why)) => {
                self.fail_merge(why, &mut out);
            },
            (LobbyPhase::AwaitingBoot, LobbyInput::Command(c)) => match c {
                Some(LobbyCommand::Boot(b)) => {
                    self.phase = LobbyPhase::Exchanging;
                    self.tell(
                        LobbyEvent::Connecting("exchanging machine state…".to_owned()),
                        &mut out,
                    );
                    push_out(&mut out, LobbyOutput::Exchange(b));
                },
                Some(LobbyCommand::Leave) => {
                    self.walk_out(&mut out);
                },
                None => {
                    self.walk_out(&mut out);
                },
                _ => {},
            },
            (LobbyPhase::Exchanging, LobbyInput::Exchanged(boots)) => {
                let mut players: Vec<StartPlayer> = Vec::new();
                std::mem::swap(&mut players, &mut self.players);
                let ghost ready = LobbyEventView::SessionReady {
                    room_code: was.room_code,
                    players: was.players,
                    local_player: was.local_player,
                    boots: boots_view(boots@),
                };
                let kept = copy_players(&players);
                self.players = kept;
                let bundle = SessionBundle {
                    room_code: self.room_code.clone(),
                    players,
                    local_player: self.local_player,
                    boots,
                };
                self.tell(LobbyEvent::SessionReady(bundle), &mut out);
                proof {
                    assert(outputs_view(out@) =~= seq![LobbyOutputView::Tell(ready)]);
                    assert(self@ =~= was);
                }
                self.go_idle(&mut out);
            },
            (LobbyPhase::Exchanging, LobbyInput::MergeFailed(why)) => {
                self.fail_merge(why, &mut out);
            },
            (LobbyPhase::Retrying, LobbyInput::Command(c)) => match c {
                Some(LobbyCommand::Boot(_)) => {},
                Some(LobbyCommand::Dropped) => {},
                c => {
                    self.handle_command(c, &mut out);
                },
            },
            (LobbyPhase::Retrying, LobbyInput::RetryFired) => {
                push_out(&mut out, LobbyOutput::Send(ClientMessage::set_ready(false)));
                proof {
                    assert(outputs_view(out@) =~= seq![
                        LobbyOutputView::Send(
                            ClientMessageView {
                                msg: Some(
                                    client_message::MsgView::SetReady(
                                        SetReadyView { ready: false },
                                    ),
                                ),
                            },
                        ),
                    ]);
                }
                self.go_idle(&mut out);
            },
            _ => {},
        }
        proof {
            assert(outputs_view(out@) =~= want.out);
            assert(self@ =~= want.lobby);
        }
        out
    }
}

fn copy_players(players: &Vec<StartPlayer>) -> (c: Vec<StartPlayer>)
    ensures
        start_players_view(c@) == start_players_view(players@),
{
    let mut c: Vec<StartPlayer> = Vec::new();
    let mut i: usize = 0;
    while i < players.len()
        invariant
            i <= players@.len(),
            start_players_view(c@) == start_players_view(players@.take(i as int)),
        decreases players@.len() - i,
    {
        let p = StartPlayer { nick: players[i].nick.clone(), rom_crc32: players[i].rom_crc32 };
        let ghost before = c@;
        c.push(p);
        i = i + 1;
        proof {
            assert(start_players_view(c@) =~= start_players_view(before).push(p@));
            assert(start_players_view(players@.take(i as int)) =~= start_players_view(
                players@.take(i - 1),
            ).push(players@[i - 1]@));
        }
    }
    assert(players@.take(i as int) =~= players@);
    c
}

// ---------------------------------------------------------------------
// What holds of every lobby
// ---------------------------------------------------------------------

/// The room outlives its merges: once a session is ready the lobby idles in the
/// same room, with nothing set aside to replay.
pub proof fn law_the_room_outlives_its_merges(l: LobbyView, boots: Seq<Seq<u8>>)
    requires
        l.phase == LobbyPhase::Exchanging,
        l.stray.len() == 0,
    ensures
        lobby_step(l, LobbyInputView::Exchanged(boots)).lobby == (LobbyView {
            phase: LobbyPhase::Idle,
            ..l
        }),
{
}

/// A failed merge in a wireless room is retried: after a pause the ready bit
/// comes down, and the lobby idles again.
pub proof fn law_wireless_rooms_retry(l: LobbyView, why: Seq<char>)
    requires
        l.phase == LobbyPhase::Meshing || l.phase == LobbyPhase::Exchanging,
        l.wireless,
        l.stray.len() == 0,
    ensures
        ({
            let failed = lobby_step(l, LobbyInputView::MergeFailed(why));
            let again = lobby_step(failed.lobby, LobbyInputView::RetryFired);
            &&& failed.out.last() == LobbyOutputView::ArmRetry(MERGE_RETRY_MS)
            &&& again.lobby == (LobbyView { phase: LobbyPhase::Idle, ..l })
            &&& again.out == sent(
                l,
                client_message::MsgView::SetReady(SetReadyView { ready: false }),
            ).out
        }),
{
    let failed = lobby_step(l, LobbyInputView::MergeFailed(why));
    let again = lobby_step(failed.lobby, LobbyInputView::RetryFired);
    assert(again.out =~= sent(
        l,
        client_message::MsgView::SetReady(SetReadyView { ready: false }),
    ).out);
}

/// A merge that was already on its way supersedes a reported drop: whatever
/// the room's timer does from then on, the ready bit stays up.
pub proof fn law_a_start_cancels_the_dance(l: LobbyView, s: StartingView, phase: LobbyPhase)
    ensures
        ({
            let merging = on_server(l, server_message::MsgView::Starting(s)).lobby;
            let later = LobbyView { phase, ..merging };
            lobby_step(later, LobbyInputView::DanceFired) == quiet(later)
        }),
{
}

/// A cable room does nothing by itself: neither a failed merge nor a dropped
/// session arms a timer or touches the ready bit.
pub proof fn law_cable_rooms_wait_for_their_creator(l: LobbyView, why: Seq<char>)
    requires
        !l.wireless,
        l.stray.len() == 0,
    ensures
        ({
            let merging = LobbyView { phase: LobbyPhase::Meshing, ..l };
            let failed = lobby_step(merging, LobbyInputView::MergeFailed(why));
            &&& failed.lobby == (LobbyView { phase: LobbyPhase::Idle, ..l })
            &&& failed.out.len() == 1
            &&& failed.out[0] is Tell
        }),
        ({
            let idle = LobbyView { phase: LobbyPhase::Idle, ..l };
            lobby_step(idle, LobbyInputView::Command(Some(LobbyCommandView::Dropped)))
                == quiet(idle)
        }),
{
    let merging = LobbyView { phase: LobbyPhase::Meshing, ..l };
    let failed = lobby_step(merging, LobbyInputView::MergeFailed(why));
    let idle = LobbyView { phase: LobbyPhase::Idle, ..l };
    assert(replayed(idle) == quiet(idle));
}

/// Wherever commands are read, leaving tells the server and closes the
/// connection.
pub proof fn law_leaving_always_leaves(l: LobbyView)
    requires
        l.phase == LobbyPhase::Idle || l.phase == LobbyPhase::AwaitingBoot || l.phase
            == LobbyPhase::Retrying,
    ensures
        lobby_step(l, LobbyInputView::Command(Some(LobbyCommandView::Leave))) == walked_out(l),
        lobby_step(l, LobbyInputView::Command(None)) == walked_out(l),
{
}

/// A lobby that is over stays over and does nothing.
pub proof fn law_over_is_over(l: LobbyView, input: LobbyInputView)
    requires
        l.phase == LobbyPhase::Closed,
    ensures
        lobby_step(l, input) == quiet(l),
{
}

} // verus!
