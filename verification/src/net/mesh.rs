//! Full-mesh bring-up. After the signaling server broadcasts `Starting`, every
//! peer builds one connection per other player: the lower player index makes
//! the offer, descriptions and trickled candidates relay through the server as
//! opaque [`PeerSignal`]s, and each edge finishes with a version handshake over
//! its reliable control channel.
use vstd::prelude::*;
use crate::net::protocol::{
    control_bytes, described, read_control, read_signal, signal_bytes, PeerControl, PeerControlView,
    PeerSignal, PeerSignalView, NET_VERSION,
};
use crate::signaling::client_message;
use crate::signaling::codec::decoded;
use crate::signaling::server_message;
use crate::signaling::{
    decode, ClientMessage, ClientMessageView, ServerMessage, SignalView,
};
use crate::text::{chars_of, debug_quoted, decimal, push_decimal, quoted, same_text};

pub mod laws;

verus! {

/// How long the whole mesh has to come up before we give up.
pub const MESH_TIMEOUT_MS: u32 = 60_000;

/// How long a still-pending edge survives its peer's signaling socket going
/// away. A peer that finished *its* mesh legitimately leaves the server while
/// our handshake reply is still in flight; only a peer that actually died
/// leaves the edge dangling past this.
pub const DEPARTED_GRACE_MS: u64 = 10_000;

/// How long nothing has to happen before the departed are looked at.
pub const DEPARTED_POLL_MS: u32 = 500;

/// What a connection says of itself while it comes up.
#[derive(Debug, Clone, PartialEq, Eq)]
pub enum PeerEvent {
    /// A local candidate to trickle to the peer.
    Candidate(String),
    /// The connection failed for good.
    Failed,
}

/// What a [`PeerEvent`] says.
pub enum PeerEventView {
    Candidate(Seq<char>),
    Failed,
}

impl View for PeerEvent {
    type V = PeerEventView;

    open spec fn view(&self) -> PeerEventView {
        match *self {
            PeerEvent::Candidate(c) => PeerEventView::Candidate(c@),
            PeerEvent::Failed => PeerEventView::Failed,
        }
    }
}

/// The event that a gathered candidate is. The empty one is the end of them;
/// peers don't need it.
pub fn local_candidate(candidate: String) -> (e: Option<PeerEvent>)
    ensures
        match e {
            Some(e) => candidate@.len() > 0 && e == PeerEvent::Candidate(candidate),
            None => candidate@.len() == 0,
        },
{
    let chars = chars_of(candidate.as_str());
    if chars.len() > 0 {
        Some(PeerEvent::Candidate(candidate))
    } else {
        None
    }
}

/// How a connection stands.
#[derive(Debug, Clone, Copy, PartialEq, Eq, Structural)]
pub enum ConnectionState {
    New,
    Connecting,
    Connected,
    /// This can self-heal: negotiation keeps trying.
    Disconnected,
    Failed,
    Closed,
}

/// The event that a change of state is, where it is one.
pub fn state_event(state: ConnectionState) -> (e: Option<PeerEvent>)
    ensures
        e == if state == ConnectionState::Failed || state == ConnectionState::Closed {
            Some(PeerEvent::Failed)
        } else {
            None
        },
{
    match state {
        ConnectionState::Failed => Some(PeerEvent::Failed),
        ConnectionState::Closed => Some(PeerEvent::Failed),
        _ => None,
    }
}

// ---------------------------------------------------------------------
// What goes wrong
// ---------------------------------------------------------------------

/// Why a mesh does not come up.
#[derive(Debug)]
pub enum MeshError {
    TimedOut,
    /// The signaling server is gone.
    SignalingLost,
    /// A description of a kind nobody knows.
    UnknownSdpType(String),
    /// The connection to this player failed.
    ConnectionFailed(u32),
    /// This player left, and its edge never came up.
    Departed(u32),
    /// The control channel closed before opening.
    NeverOpened,
    /// The control channel closed during the handshake.
    ClosedMidHandshake,
    BadHandshake,
    /// The peer speaks another version.
    Incompatible(u32),
    NotHello(PeerControl),
    UnknownPeer,
}

/// What a [`MeshError`] says.
#[verifier::ext_equal]
pub enum MeshErrorView {
    TimedOut,
    SignalingLost,
    UnknownSdpType(Seq<char>),
    ConnectionFailed(u32),
    Departed(u32),
    NeverOpened,
    ClosedMidHandshake,
    BadHandshake,
    Incompatible(u32),
    NotHello(PeerControlView),
    UnknownPeer,
}

impl View for MeshError {
    type V = MeshErrorView;

    open spec fn view(&self) -> MeshErrorView {
        match *self {
            MeshError::TimedOut => MeshErrorView::TimedOut,
            MeshError::SignalingLost => MeshErrorView::SignalingLost,
            MeshError::UnknownSdpType(t) => MeshErrorView::UnknownSdpType(t@),
            MeshError::ConnectionFailed(p) => MeshErrorView::ConnectionFailed(p),
            MeshError::Departed(p) => MeshErrorView::Departed(p),
            MeshError::NeverOpened => MeshErrorView::NeverOpened,
            MeshError::ClosedMidHandshake => MeshErrorView::ClosedMidHandshake,
            MeshError::BadHandshake => MeshErrorView::BadHandshake,
            MeshError::Incompatible(v) => MeshErrorView::Incompatible(v),
            MeshError::NotHello(c) => MeshErrorView::NotHello(c@),
            MeshError::UnknownPeer => MeshErrorView::UnknownPeer,
        }
    }
}

/// What is said of a mesh that does not come up. Players are counted from one.
pub open spec fn mesh_error_text(e: MeshErrorView) -> Seq<char> {
    match e {
        MeshErrorView::TimedOut => "timed out connecting to peers"@,
        MeshErrorView::SignalingLost => "signaling server connection lost"@,
        MeshErrorView::UnknownSdpType(t) => "unknown sdp type "@ + debug_quoted(t),
        MeshErrorView::ConnectionFailed(p) => "connection to player "@ + decimal(p as nat + 1)
            + " failed"@,
        MeshErrorView::Departed(p) => "player "@ + decimal(p as nat + 1)
            + " left during connection setup"@,
        MeshErrorView::NeverOpened => "control channel closed before opening"@,
        MeshErrorView::ClosedMidHandshake => "control channel closed during handshake"@,
        MeshErrorView::BadHandshake => "bad handshake message"@,
        MeshErrorView::Incompatible(v) => "peer runs incompatible net protocol "@ + decimal(
            v as nat,
        ) + " (we run "@ + decimal(NET_VERSION as nat) + ")"@,
        MeshErrorView::NotHello(c) => "expected hello, got "@ + described(c),
        MeshErrorView::UnknownPeer => "handshake for unknown peer"@,
    }
}

impl MeshError {
    /// What to say of it.
    pub fn message(&self) -> (t: String)
        ensures
            t@ == mesh_error_text(self@),
    {
        match self {
            MeshError::TimedOut => "timed out connecting to peers".to_owned(),
            MeshError::SignalingLost => "signaling server connection lost".to_owned(),
            MeshError::UnknownSdpType(k) => {
                let mut t = "unknown sdp type ".to_owned();
                t.append(quoted(k.as_str()).as_str());
                t
            },
            MeshError::ConnectionFailed(p) => {
                let mut t = "connection to player ".to_owned();
                push_decimal(&mut t, *p as u64 + 1);
                t.append(" failed");
                t
            },
            MeshError::Departed(p) => {
                let mut t = "player ".to_owned();
                push_decimal(&mut t, *p as u64 + 1);
                t.append(" left during connection setup");
                t
            },
            MeshError::NeverOpened => "control channel closed before opening".to_owned(),
            MeshError::ClosedMidHandshake => "control channel closed during handshake".to_owned(),
            MeshError::BadHandshake => "bad handshake message".to_owned(),
            MeshError::Incompatible(v) => {
                let mut t = "peer runs incompatible net protocol ".to_owned();
                push_decimal(&mut t, *v as u64);
                t.append(" (we run ");
                push_decimal(&mut t, NET_VERSION as u64);
                t.append(")");
                t
            },
            MeshError::NotHello(c) => {
                let mut t = "expected hello, got ".to_owned();
                t.append(c.describe().as_str());
                t
            },
            MeshError::UnknownPeer => "handshake for unknown peer".to_owned(),
        }
    }
}

// ---------------------------------------------------------------------
// What happens, and what is done
// ---------------------------------------------------------------------

/// What happens while a mesh comes up.
#[derive(Debug)]
pub enum MeshInput {
    /// Our offer to a player is made.
    OfferMade { player: u32, sdp: String },
    /// A message came from the server, at this time in milliseconds.
    Received { bytes: Vec<u8>, now: u64 },
    /// The server is gone.
    SocketClosed,
    /// A player's offer was accepted, and this is the answer to it.
    Answered { player: u32, sdp: String },
    /// A player's answer was accepted.
    Accepted { player: u32 },
    /// A connection has something to say.
    Peer { player: u32, event: PeerEvent },
    /// A player's control channel opened.
    ControlOpen { player: u32 },
    /// A player's control channel closed, having been open or not.
    ControlClosed { opened: bool },
    /// The first message on a player's control channel.
    Reply { player: u32, bytes: Vec<u8> },
    /// Nothing happened for [`DEPARTED_POLL_MS`].
    Quiet { now: u64 },
    /// [`MESH_TIMEOUT_MS`] are over.
    TimedOut,
}

/// What a [`MeshInput`] says.
pub enum MeshInputView {
    OfferMade { player: u32, sdp: Seq<char> },
    Received { bytes: Seq<u8>, now: u64 },
    SocketClosed,
    Answered { player: u32, sdp: Seq<char> },
    Accepted { player: u32 },
    Peer { player: u32, event: PeerEventView },
    ControlOpen { player: u32 },
    ControlClosed { opened: bool },
    Reply { player: u32, bytes: Seq<u8> },
    Quiet { now: u64 },
    TimedOut,
}

impl View for MeshInput {
    type V = MeshInputView;

    open spec fn view(&self) -> MeshInputView {
        match *self {
            MeshInput::OfferMade { player, sdp } => MeshInputView::OfferMade { player, sdp: sdp@ },
            MeshInput::Received { bytes, now } => MeshInputView::Received { bytes: bytes@, now },
            MeshInput::SocketClosed => MeshInputView::SocketClosed,
            MeshInput::Answered { player, sdp } => MeshInputView::Answered { player, sdp: sdp@ },
            MeshInput::Accepted { player } => MeshInputView::Accepted { player },
            MeshInput::Peer { player, event } => MeshInputView::Peer { player, event: event@ },
            MeshInput::ControlOpen { player } => MeshInputView::ControlOpen { player },
            MeshInput::ControlClosed { opened } => MeshInputView::ControlClosed { opened },
            MeshInput::Reply { player, bytes } => MeshInputView::Reply { player, bytes: bytes@ },
            MeshInput::Quiet { now } => MeshInputView::Quiet { now },
            MeshInput::TimedOut => MeshInputView::TimedOut,
        }
    }
}

/// What is done to bring a mesh up.
#[derive(Debug)]
pub enum MeshOutput {
    /// Open a connection to a player, making the offer or waiting for theirs.
    Connect { player: u32, offer: bool },
    /// Send to the server.
    Send(ClientMessage),
    /// Accept a player's offer, and come back with the answer.
    AcceptOffer { player: u32, sdp: String },
    AcceptAnswer { player: u32, sdp: String },
    AddCandidate { player: u32, candidate: String },
    /// Send on a player's control channel.
    SendControl { player: u32, bytes: Vec<u8> },
    /// A message for whoever minds the room.
    SetAside(server_message::Msg),
    /// Every edge is up.
    Up,
    Fail(MeshError),
}

/// What a [`MeshOutput`] says.
#[verifier::ext_equal]
pub enum MeshOutputView {
    Connect { player: u32, offer: bool },
    Send(ClientMessageView),
    AcceptOffer { player: u32, sdp: Seq<char> },
    AcceptAnswer { player: u32, sdp: Seq<char> },
    AddCandidate { player: u32, candidate: Seq<char> },
    SendControl { player: u32, bytes: Seq<u8> },
    SetAside(server_message::MsgView),
    Up,
    Fail(MeshErrorView),
}

impl View for MeshOutput {
    type V = MeshOutputView;

    open spec fn view(&self) -> MeshOutputView {
        match *self {
            MeshOutput::Connect { player, offer } => MeshOutputView::Connect { player, offer },
            MeshOutput::Send(m) => MeshOutputView::Send(m@),
            MeshOutput::AcceptOffer { player, sdp } => MeshOutputView::AcceptOffer {
                player,
                sdp: sdp@,
            },
            MeshOutput::AcceptAnswer { player, sdp } => MeshOutputView::AcceptAnswer {
                player,
                sdp: sdp@,
            },
            MeshOutput::AddCandidate { player, candidate } => MeshOutputView::AddCandidate {
                player,
                candidate: candidate@,
            },
            MeshOutput::SendControl { player, bytes } => MeshOutputView::SendControl {
                player,
                bytes: bytes@,
            },
            MeshOutput::SetAside(m) => MeshOutputView::SetAside(m@),
            MeshOutput::Up => MeshOutputView::Up,
            MeshOutput::Fail(e) => MeshOutputView::Fail(e@),
        }
    }
}

/// What a list of outputs says.
pub open spec fn mesh_outputs_view(o: Seq<MeshOutput>) -> Seq<MeshOutputView> {
    o.map_values(|o: MeshOutput| o@)
}

// ---------------------------------------------------------------------
// The mesh
// ---------------------------------------------------------------------

/// One connection on its way up.
#[derive(Debug)]
pub struct Edge {
    pub player: u32,
    pub remote_description_set: bool,
    /// Candidates that came before the description they belong to.
    pub queued_candidates: Vec<String>,
    /// The handshake is over.
    pub up: bool,
}

/// What an [`Edge`] says.
#[verifier::ext_equal]
pub struct EdgeView {
    pub player: u32,
    pub remote_description_set: bool,
    pub queued_candidates: Seq<Seq<char>>,
    pub up: bool,
}

/// What a list of texts says.
pub open spec fn texts_view(t: Seq<String>) -> Seq<Seq<char>> {
    t.map_values(|s: String| s@)
}

impl View for Edge {
    type V = EdgeView;

    open spec fn view(&self) -> EdgeView {
        EdgeView {
            player: self.player,
            remote_description_set: self.remote_description_set,
            queued_candidates: texts_view(self.queued_candidates@),
            up: self.up,
        }
    }
}

/// What a list of edges says.
pub open spec fn edges_view(e: Seq<Edge>) -> Seq<EdgeView> {
    e.map_values(|e: Edge| e@)
}

/// A mesh on its way up, seen from one player.
#[derive(Debug)]
pub struct Mesh {
    /// One edge for every other player, in player order.
    pub edges: Vec<Edge>,
    /// Players whose signaling socket closed while their edge was still
    /// pending, and when the grace clock started.
    pub departed: Vec<(u32, u64)>,
    /// Up, or failed.
    pub over: bool,
}

/// What a [`Mesh`] says.
#[verifier::ext_equal]
pub struct MeshView {
    pub edges: Seq<EdgeView>,
    pub departed: Seq<(u32, u64)>,
    pub over: bool,
}

impl View for Mesh {
    type V = MeshView;

    open spec fn view(&self) -> MeshView {
        MeshView { edges: edges_view(self.edges@), departed: self.departed@, over: self.over }
    }
}

/// A mesh after something happened, and what is done about it.
#[verifier::ext_equal]
pub struct MeshStep {
    pub mesh: MeshView,
    pub out: Seq<MeshOutputView>,
}

/// Nothing changes, and this is done.
pub open spec fn doing(m: MeshView, out: Seq<MeshOutputView>) -> MeshStep {
    MeshStep { mesh: m, out }
}

/// The mesh fails.
pub open spec fn failing(m: MeshView, e: MeshErrorView) -> MeshStep {
    MeshStep { mesh: MeshView { over: true, ..m }, out: seq![MeshOutputView::Fail(e)] }
}

/// The edge of a player that is still on its way up, from a position on.
pub open spec fn pending_from(edges: Seq<EdgeView>, player: u32, i: int) -> Option<int>
    decreases edges.len() - i,
{
    if i >= edges.len() {
        None
    } else if edges[i].player == player && !edges[i].up {
        Some(i)
    } else {
        pending_from(edges, player, i + 1)
    }
}

/// The edge of a player that is still on its way up.
pub open spec fn pending(m: MeshView, player: u32) -> Option<int> {
    pending_from(m.edges, player, 0)
}

/// Whether the edge of a player is up.
pub open spec fn is_up(m: MeshView, player: u32) -> bool {
    exists|i: int| 0 <= i < m.edges.len() && (#[trigger] m.edges[i]).player == player && m.edges[i].up
}

/// Whether a player's grace clock is running.
pub open spec fn has_departed(departed: Seq<(u32, u64)>, player: u32) -> bool {
    exists|i: int| 0 <= i < departed.len() && (#[trigger] departed[i]).0 == player
}

/// The clocks but for one player's.
pub open spec fn without(departed: Seq<(u32, u64)>, player: u32) -> Seq<(u32, u64)> {
    departed.filter(not_of(player))
}

/// Whether a clock is not a player's.
pub open spec fn not_of(player: u32) -> spec_fn((u32, u64)) -> bool {
    |d: (u32, u64)| d.0 != player
}

/// A signal on its way to a player.
pub open spec fn signal_to(player: u32, s: PeerSignalView) -> MeshOutputView {
    MeshOutputView::Send(
        ClientMessageView {
            msg: Some(
                client_message::MsgView::Signal(
                    SignalView { peer: player, payload: signal_bytes(s) },
                ),
            ),
        },
    )
}

/// A description on its way to a player.
pub open spec fn description_to(player: u32, sdp_type: Seq<char>, sdp: Seq<char>) -> MeshOutputView {
    signal_to(player, PeerSignalView::Description { sdp_type, sdp })
}

/// The candidates of a player, to be added in the order they came.
pub open spec fn adding(player: u32, candidates: Seq<Seq<char>>) -> Seq<MeshOutputView> {
    candidates.map_values(
        |c: Seq<char>| MeshOutputView::AddCandidate { player, candidate: c },
    )
}

/// The mesh once the remote description of an edge is set: what was queued for
/// it is queued no longer.
pub open spec fn described_edge(m: MeshView, i: int) -> MeshView {
    MeshView {
        edges: m.edges.update(
            i,
            EdgeView {
                remote_description_set: true,
                queued_candidates: Seq::empty(),
                ..m.edges[i]
            },
        ),
        ..m
    }
}

/// A signal came from a player.
pub open spec fn on_signal(m: MeshView, from: u32, payload: Seq<u8>) -> MeshStep {
    match (pending(m, from), read_signal(payload)) {
        (Some(_), Some(PeerSignalView::Description { sdp_type, sdp })) => if sdp_type == "offer"@ {
            doing(m, seq![MeshOutputView::AcceptOffer { player: from, sdp }])
        } else if sdp_type == "answer"@ {
            doing(m, seq![MeshOutputView::AcceptAnswer { player: from, sdp }])
        } else {
            failing(m, MeshErrorView::UnknownSdpType(sdp_type))
        },
        (Some(i), Some(PeerSignalView::Candidate { candidate })) => if m.edges[i].remote_description_set {
            doing(m, seq![MeshOutputView::AddCandidate { player: from, candidate }])
        } else {
            doing(
                MeshView {
                    edges: m.edges.update(
                        i,
                        EdgeView {
                            queued_candidates: m.edges[i].queued_candidates.push(candidate),
                            ..m.edges[i]
                        },
                    ),
                    ..m
                },
                Seq::empty(),
            )
        },
        _ => doing(m, Seq::empty()),
    }
}

/// A player's signaling socket went away. Harmless where its edge is up; the
/// clock of a pending one starts once.
pub open spec fn on_peer_left(m: MeshView, player: u32, now: u64) -> MeshStep {
    if is_up(m, player) || has_departed(m.departed, player) {
        doing(m, Seq::empty())
    } else {
        doing(MeshView { departed: m.departed.push((player, now)), ..m }, Seq::empty())
    }
}

/// A message came from the server.
pub open spec fn on_message(m: MeshView, bytes: Seq<u8>, now: u64) -> MeshStep {
    match decoded::<ServerMessage>(bytes) {
        Some(sm) => match sm.msg {
            Some(server_message::MsgView::Signal(s)) => on_signal(m, s.peer, s.payload),
            Some(server_message::MsgView::PeerLeft(l)) => on_peer_left(m, l.player_idx, now),
            Some(other) => doing(m, seq![MeshOutputView::SetAside(other)]),
            None => doing(m, Seq::empty()),
        },
        None => doing(m, Seq::empty()),
    }
}

/// What is wrong with the first message on a control channel; `None` where it
/// greets us in our version.
pub open spec fn handshake_fault(bytes: Seq<u8>) -> Option<MeshErrorView> {
    match read_control(bytes) {
        None => Some(MeshErrorView::BadHandshake),
        Some(PeerControlView::Hello { net_version }) => if net_version == NET_VERSION {
            None
        } else {
            Some(MeshErrorView::Incompatible(net_version))
        },
        Some(other) => Some(MeshErrorView::NotHello(other)),
    }
}

/// Whether every edge is up.
pub open spec fn all_up(edges: Seq<EdgeView>) -> bool {
    forall|i: int| 0 <= i < edges.len() ==> (#[trigger] edges[i]).up
}

/// A player's handshake is over.
pub open spec fn joined(m: MeshView, i: int) -> MeshStep {
    let edges = m.edges.update(i, EdgeView { up: true, ..m.edges[i] });
    let up = all_up(edges);
    MeshStep {
        mesh: MeshView { edges, departed: without(m.departed, m.edges[i].player), over: up },
        out: if up {
            seq![MeshOutputView::Up]
        } else {
            Seq::empty()
        },
    }
}

/// The first message came on a player's control channel.
pub open spec fn on_reply(m: MeshView, player: u32, bytes: Seq<u8>) -> MeshStep {
    match (handshake_fault(bytes), pending(m, player)) {
        (Some(e), _) => failing(m, e),
        (None, None) => failing(m, MeshErrorView::UnknownPeer),
        (None, Some(i)) => joined(m, i),
    }
}

/// The first of the departed, from a position on, whose grace is over.
pub open spec fn overdue_from(departed: Seq<(u32, u64)>, now: u64, i: int) -> Option<u32>
    decreases departed.len() - i,
{
    if i >= departed.len() {
        None
    } else if now - departed[i].1 > DEPARTED_GRACE_MS {
        Some(departed[i].0)
    } else {
        overdue_from(departed, now, i + 1)
    }
}

/// What a mesh does with what happened.
pub open spec fn mesh_step(m: MeshView, input: MeshInputView) -> MeshStep {
    if m.over {
        doing(m, Seq::empty())
    } else {
        match input {
            MeshInputView::OfferMade { player, sdp } => doing(
                m,
                seq![description_to(player, "offer"@, sdp)],
            ),
            MeshInputView::Received { bytes, now } => on_message(m, bytes, now),
            MeshInputView::SocketClosed => failing(m, MeshErrorView::SignalingLost),
            MeshInputView::Answered { player, sdp } => match pending(m, player) {
                Some(i) => doing(
                    described_edge(m, i),
                    seq![description_to(player, "answer"@, sdp)] + adding(
                        player,
                        m.edges[i].queued_candidates,
                    ),
                ),
                None => doing(m, Seq::empty()),
            },
            MeshInputView::Accepted { player } => match pending(m, player) {
                Some(i) => doing(
                    described_edge(m, i),
                    adding(player, m.edges[i].queued_candidates),
                ),
                None => doing(m, Seq::empty()),
            },
            MeshInputView::Peer { player, event } => match event {
                PeerEventView::Candidate(candidate) => doing(
                    m,
                    seq![signal_to(player, PeerSignalView::Candidate { candidate })],
                ),
                PeerEventView::Failed => failing(m, MeshErrorView::ConnectionFailed(player)),
            },
            MeshInputView::ControlOpen { player } => doing(
                m,
                seq![
                    MeshOutputView::SendControl {
                        player,
                        bytes: control_bytes(
                            PeerControlView::Hello { net_version: NET_VERSION },
                        ),
                    },
                ],
            ),
            MeshInputView::ControlClosed { opened } => failing(
                m,
                if opened {
                    MeshErrorView::ClosedMidHandshake
                } else {
                    MeshErrorView::NeverOpened
                },
            ),
            MeshInputView::Reply { player, bytes } => on_reply(m, player, bytes),
            MeshInputView::Quiet { now } => match overdue_from(m.departed, now, 0) {
                Some(player) => failing(m, MeshErrorView::Departed(player)),
                None => doing(m, Seq::empty()),
            },
            MeshInputView::TimedOut => failing(m, MeshErrorView::TimedOut),
        }
    }
}

/// An edge nothing has happened on.
pub open spec fn fresh_edge(player: u32) -> EdgeView {
    EdgeView { player, remote_description_set: false, queued_candidates: Seq::empty(), up: false }
}

/// The other players among the first `n`, in order.
pub open spec fn others(local_player: u32, n: nat) -> Seq<u32>
    decreases n,
{
    if n == 0 {
        Seq::empty()
    } else if n - 1 == local_player {
        others(local_player, (n - 1) as nat)
    } else {
        others(local_player, (n - 1) as nat).push((n - 1) as u32)
    }
}

/// A mesh at its start: a connection to every other player, the lower index
/// making the offer. Somebody alone is done at once.
pub open spec fn mesh_start(local_player: u32, num_players: u32) -> MeshStep {
    let o = others(local_player, num_players as nat);
    MeshStep {
        mesh: MeshView {
            edges: o.map_values(|p: u32| fresh_edge(p)),
            departed: Seq::empty(),
            over: o.len() == 0,
        },
        out: o.map_values(
            |p: u32| MeshOutputView::Connect { player: p, offer: local_player < p },
        ) + (if o.len() == 0 {
            seq![MeshOutputView::Up]
        } else {
            Seq::empty()
        }),
    }
}

fn push_out(out: &mut Vec<MeshOutput>, o: MeshOutput)
    ensures
        mesh_outputs_view(final(out)@) == mesh_outputs_view(old(out)@).push(o@),
{
    out.push(o);
    assert(mesh_outputs_view(out@) =~= mesh_outputs_view(old(out)@).push(o@));
}

fn send_signal(out: &mut Vec<MeshOutput>, player: u32, signal: PeerSignal)
    ensures
        mesh_outputs_view(final(out)@) == mesh_outputs_view(old(out)@).push(
            signal_to(player, signal@),
        ),
{
    match signal.encode() {
        Some(payload) => {
            push_out(out, MeshOutput::Send(ClientMessage::signal(player, payload)));
        },
        None => {},
    }
}

impl Mesh {
    /// Start building the mesh of a started room.
    pub fn start(local_player: u32, num_players: u32) -> (r: (Mesh, Vec<MeshOutput>))
        ensures
            r.0@ == mesh_start(local_player, num_players).mesh,
            mesh_outputs_view(r.1@) == mesh_start(local_player, num_players).out,
    {
        let mut edges: Vec<Edge> = Vec::new();
        let mut out: Vec<MeshOutput> = Vec::new();
        let ghost mk = |p: u32| fresh_edge(p);
        let ghost say = |p: u32| MeshOutputView::Connect { player: p, offer: local_player < p };
        let mut player: u32 = 0;
        proof {
            assert(edges_view(edges@) =~= others(local_player, 0).map_values(mk));
            assert(mesh_outputs_view(out@) =~= others(local_player, 0).map_values(say));
        }
        while player < num_players
            invariant
                player <= num_players,
                mk == (|p: u32| fresh_edge(p)),
                say == (|p: u32| MeshOutputView::Connect { player: p, offer: local_player < p }),
                edges_view(edges@) == others(local_player, player as nat).map_values(mk),
                mesh_outputs_view(out@) == others(local_player, player as nat).map_values(say),
            decreases num_players - player,
        {
            let ghost before = edges@;
            let ghost o = others(local_player, player as nat);
            if player != local_player {
                let e = Edge {
                    player,
                    remote_description_set: false,
                    queued_candidates: Vec::new(),
                    up: false,
                };
                proof {
                    assert(texts_view(e.queued_candidates@) =~= Seq::empty());
                    assert(e@ == mk(player));
                }
                edges.push(e);
                push_out(
                    &mut out,
                    MeshOutput::Connect { player, offer: local_player < player },
                );
                proof {
                    assert(edges_view(edges@) =~= edges_view(before).push(mk(player)));
                    assert(o.push(player).map_values(mk) =~= o.map_values(mk).push(mk(player)));
                    assert(o.push(player).map_values(say) =~= o.map_values(say).push(say(player)));
                }
            }
            player = player + 1;
        }
        let over = edges.len() == 0;
        proof {
            let o = others(local_player, num_players as nat);
            assert(edges_view(edges@).len() == o.len());
            assert(mesh_outputs_view(out@) + Seq::empty() =~= mesh_outputs_view(out@));
        }
        if over {
            push_out(&mut out, MeshOutput::Up);
        }
        proof {
            assert(mesh_outputs_view(out@) =~= mesh_start(local_player, num_players).out);
        }
        (Mesh { edges, departed: Vec::new(), over }, out)
    }

    fn find_pending(&self, player: u32) -> (i: Option<usize>)
        ensures
            match i {
                Some(i) => i < self.edges@.len() && pending(self@, player) == Some(i as int)
                    && self.edges@[i as int].player == player,
                None => pending(self@, player) is None,
            },
    {
        let mut i: usize = 0;
        while i < self.edges.len()
            invariant
                i <= self.edges@.len(),
                pending(self@, player) == pending_from(self@.edges, player, i as int),
            decreases self.edges@.len() - i,
        {
            assert(self@.edges[i as int] == self.edges@[i as int]@);
            if self.edges[i].player == player && !self.edges[i].up {
                return Some(i);
            }
            i = i + 1;
        }
        None
    }

    fn edge_is_up(&self, player: u32) -> (up: bool)
        ensures
            up == is_up(self@, player),
    {
        let mut i: usize = 0;
        while i < self.edges.len()
            invariant
                i <= self.edges@.len(),
                forall|j: int|
                    0 <= j < i ==> !((#[trigger] self@.edges[j]).player == player
                        && self@.edges[j].up),
            decreases self.edges@.len() - i,
        {
            assert(self@.edges[i as int] == self.edges@[i as int]@);
            if self.edges[i].player == player && self.edges[i].up {
                return true;
            }
            i = i + 1;
        }
        false
    }

    fn clock_runs(&self, player: u32) -> (b: bool)
        ensures
            b == has_departed(self.departed@, player),
    {
        let mut i: usize = 0;
        while i < self.departed.len()
            invariant
                i <= self.departed@.len(),
                forall|j: int| 0 <= j < i ==> (#[trigger] self.departed@[j]).0 != player,
            decreases self.departed@.len() - i,
        {
            if self.departed[i].0 == player {
                return true;
            }
            i = i + 1;
        }
        false
    }

    fn forget_departed(&mut self, player: u32)
        ensures
            final(self).departed@ == without(old(self).departed@, player),
            final(self).edges == old(self).edges,
            final(self).over == old(self).over,
    {
        let mut kept: Vec<(u32, u64)> = Vec::new();
        let ghost keep = not_of(player);
        let mut i: usize = 0;
        proof {
            reveal(Seq::filter);
            assert(self.departed@.take(0).filter(keep) =~= kept@);
        }
        while i < self.departed.len()
            invariant
                i <= self.departed@.len(),
                keep == not_of(player),
                kept@ == self.departed@.take(i as int).filter(keep),
                *self == *old(self),
            decreases self.departed@.len() - i,
        {
            proof {
                reveal(Seq::filter);
                assert(self.departed@.take(i + 1).drop_last() =~= self.departed@.take(i as int));
            }
            if self.departed[i].0 != player {
                kept.push(self.departed[i]);
            }
            i = i + 1;
        }
        proof {
            assert(self.departed@.take(i as int) =~= self.departed@);
        }
        self.departed = kept;
    }

    fn every_edge_up(&self) -> (b: bool)
        ensures
            b == all_up(self@.edges),
    {
        let mut i: usize = 0;
        while i < self.edges.len()
            invariant
                i <= self.edges@.len(),
                forall|j: int| 0 <= j < i ==> (#[trigger] self@.edges[j]).up,
            decreases self.edges@.len() - i,
        {
            assert(self@.edges[i as int] == self.edges@[i as int]@);
            if !self.edges[i].up {
                return false;
            }
            i = i + 1;
        }
        true
    }

    fn overdue(&self, now: u64) -> (p: Option<u32>)
        ensures
            p == overdue_from(self.departed@, now, 0),
    {
        let mut i: usize = 0;
        while i < self.departed.len()
            invariant
                i <= self.departed@.len(),
                overdue_from(self.departed@, now, 0) == overdue_from(
                    self.departed@,
                    now,
                    i as int,
                ),
            decreases self.departed@.len() - i,
        {
            let (player, at) = self.departed[i];
            if now > at && now - at > DEPARTED_GRACE_MS {
                return Some(player);
            }
            i = i + 1;
        }
        None
    }

    fn fail(&mut self, e: MeshError, out: &mut Vec<MeshOutput>)
        requires
            mesh_outputs_view(old(out)@) == Seq::<MeshOutputView>::empty(),
        ensures
            final(self)@ == failing(old(self)@, e@).mesh,
            mesh_outputs_view(final(out)@) == failing(old(self)@, e@).out,
    {
        self.over = true;
        push_out(out, MeshOutput::Fail(e));
        assert(mesh_outputs_view(out@) =~= seq![MeshOutputView::Fail(e@)]);
    }

    /// The remote description of an edge is set: add what was queued for it.
    fn set_described(&mut self, i: usize, out: &mut Vec<MeshOutput>)
        requires
            i < old(self).edges@.len(),
        ensures
            final(self)@ == described_edge(old(self)@, i as int),
            mesh_outputs_view(final(out)@) == mesh_outputs_view(old(out)@) + adding(
                old(self)@.edges[i as int].player,
                old(self)@.edges[i as int].queued_candidates,
            ),
    {
        let player: u32 = self.edges[i].player;
        let ghost was = self@;
        let ghost before = mesh_outputs_view(out@);
        let mut queued: Vec<String> = Vec::new();
        self.edges[i].remote_description_set = true;
        std::mem::swap(&mut queued, &mut self.edges[i].queued_candidates);
        proof {
            assert(texts_view(self.edges@[i as int].queued_candidates@) =~= Seq::empty());
            assert(self.edges@[i as int]@ =~= described_edge(was, i as int).edges[i as int]);
            assert(edges_view(self.edges@) =~= described_edge(was, i as int).edges);
        }
        let ghost all = texts_view(queued@);
        let mut k: usize = 0;
        proof {
            assert(before + adding(player, all.take(0)) =~= before);
        }
        while k < queued.len()
            invariant
                k <= queued@.len(),
                all == texts_view(queued@),
                mesh_outputs_view(out@) == before + adding(player, all.take(k as int)),
            decreases queued@.len() - k,
        {
            push_out(
                out,
                MeshOutput::AddCandidate { player, candidate: queued[k].as_str().to_owned() },
            );
            proof {
                assert(all.take(k + 1) =~= all.take(k as int).push(queued@[k as int]@));
                assert(before + adding(player, all.take(k + 1)) =~= (before + adding(
                    player,
                    all.take(k as int),
                )).push(
                    MeshOutputView::AddCandidate { player, candidate: queued@[k as int]@ },
                ));
            }
            k = k + 1;
        }
        assert(all.take(k as int) =~= all);
    }

    fn handle_signal(&mut self, from: u32, payload: &[u8], out: &mut Vec<MeshOutput>)
        requires
            mesh_outputs_view(old(out)@) == Seq::<MeshOutputView>::empty(),
        ensures
            final(self)@ == on_signal(old(self)@, from, payload@).mesh,
            mesh_outputs_view(final(out)@) == on_signal(old(self)@, from, payload@).out,
    {
        let ghost was = self@;
        let i: usize = match self.find_pending(from) {
            Some(i) => i,
            None => {
                return;
            },
        };
        assert(self@.edges[i as int] == self.edges@[i as int]@);
        match PeerSignal::decode(payload) {
            None => {},
            Some(PeerSignal::Description { sdp_type, sdp }) => {
                if same_text(sdp_type.as_str(), "offer") {
                    push_out(out, MeshOutput::AcceptOffer { player: from, sdp });
                } else if same_text(sdp_type.as_str(), "answer") {
                    push_out(out, MeshOutput::AcceptAnswer { player: from, sdp });
                } else {
                    self.fail(MeshError::UnknownSdpType(sdp_type), out);
                }
            },
            Some(PeerSignal::Candidate { candidate }) => {
                if self.edges[i].remote_description_set {
                    push_out(out, MeshOutput::AddCandidate { player: from, candidate });
                } else {
                    let ghost q = self.edges@[i as int].queued_candidates@;
                    let ghost c = candidate@;
                    self.edges[i].queued_candidates.push(candidate);
                    proof {
                        assert(texts_view(self.edges@[i as int].queued_candidates@) =~= texts_view(
                            q,
                        ).push(c));
                        assert(edges_view(self.edges@) =~= on_signal(
                            was,
                            from,
                            payload@,
                        ).mesh.edges);
                    }
                }
            },
        }
        assert(mesh_outputs_view(out@) =~= on_signal(was, from, payload@).out);
    }

    fn handle_message(&mut self, msg: server_message::Msg, now: u64, out: &mut Vec<MeshOutput>)
        requires
            mesh_outputs_view(old(out)@) == Seq::<MeshOutputView>::empty(),
        ensures
            ({
                let want = match msg@ {
                    server_message::MsgView::Signal(s) => on_signal(old(self)@, s.peer, s.payload),
                    server_message::MsgView::PeerLeft(l) => on_peer_left(
                        old(self)@,
                        l.player_idx,
                        now,
                    ),
                    other => doing(old(self)@, seq![MeshOutputView::SetAside(other)]),
                };
                final(self)@ == want.mesh && mesh_outputs_view(final(out)@) == want.out
            }),
    {
        match msg {
            server_message::Msg::Signal(s) => {
                self.handle_signal(s.peer, s.payload.as_slice(), out);
            },
            server_message::Msg::PeerLeft(l) => {
                let player: u32 = l.player_idx;
                if !self.edge_is_up(player) && !self.clock_runs(player) {
                    self.departed.push((player, now));
                }
            },
            other => {
                let ghost o = other@;
                push_out(out, MeshOutput::SetAside(other));
                assert(mesh_outputs_view(out@) =~= seq![MeshOutputView::SetAside(o)]);
            },
        }
    }

    fn handle_reply(&mut self, player: u32, bytes: &[u8], out: &mut Vec<MeshOutput>)
        requires
            !old(self).over,
            mesh_outputs_view(old(out)@) == Seq::<MeshOutputView>::empty(),
        ensures
            final(self)@ == on_reply(old(self)@, player, bytes@).mesh,
            mesh_outputs_view(final(out)@) == on_reply(old(self)@, player, bytes@).out,
    {
        let ghost was = self@;
        match PeerControl::decode(bytes) {
            None => {
                self.fail(MeshError::BadHandshake, out);
            },
            Some(PeerControl::Hello { net_version }) => {
                if net_version != NET_VERSION {
                    self.fail(MeshError::Incompatible(net_version), out);
                    return;
                }
                match self.find_pending(player) {
                    None => {
                        self.fail(MeshError::UnknownPeer, out);
                    },
                    Some(i) => {
                        assert(self@.edges[i as int] == self.edges@[i as int]@);
                        self.edges[i].up = true;
                        self.forget_departed(player);
                        proof {
                            assert(edges_view(self.edges@) =~= joined(was, i as int).mesh.edges);
                        }
                        if self.every_edge_up() {
                            self.over = true;
                            push_out(out, MeshOutput::Up);
                            assert(mesh_outputs_view(out@) =~= seq![MeshOutputView::Up]);
                        }
                    },
                }
            },
            Some(other) => {
                self.fail(MeshError::NotHello(other), out);
            },
        }
    }

    /// What the mesh does with what happened.
    pub fn step(&mut self, input: MeshInput) -> (out: Vec<MeshOutput>)
        ensures
            final(self)@ == mesh_step(old(self)@, input@).mesh,
            mesh_outputs_view(out@) == mesh_step(old(self)@, input@).out,
    {
        let mut out: Vec<MeshOutput> = Vec::new();
        let ghost was = self@;
        let ghost want = mesh_step(was, input@);
        proof {
            assert(mesh_outputs_view(out@) =~= Seq::empty());
        }
        if self.over {
            return out;
        }
        match input {
            MeshInput::OfferMade { player, sdp } => {
                send_signal(
                    &mut out,
                    player,
                    PeerSignal::Description { sdp_type: "offer".to_owned(), sdp },
                );
            },
            MeshInput::Received { bytes, now } => {
                match decode::<ServerMessage>(bytes.as_slice()) {
                    Ok(m) => match m.msg {
                        Some(m) => {
                            self.handle_message(m, now, &mut out);
                        },
                        None => {},
                    },
                    Err(_) => {},
                }
            },
            MeshInput::SocketClosed => {
                self.fail(MeshError::SignalingLost, &mut out);
            },
            MeshInput::Answered { player, sdp } => match self.find_pending(player) {
                Some(i) => {
                    assert(self@.edges[i as int] == self.edges@[i as int]@);
                    send_signal(
                        &mut out,
                        player,
                        PeerSignal::Description { sdp_type: "answer".to_owned(), sdp },
                    );
                    self.set_described(i, &mut out);
                },
                None => {},
            },
            MeshInput::Accepted { player } => match self.find_pending(player) {
                Some(i) => {
                    assert(self@.edges[i as int] == self.edges@[i as int]@);
                    self.set_described(i, &mut out);
                },
                None => {},
            },
            MeshInput::Peer { player, event } => match event {
                PeerEvent::Candidate(candidate) => {
                    send_signal(&mut out, player, PeerSignal::Candidate { candidate });
                },
                PeerEvent::Failed => {
                    self.fail(MeshError::ConnectionFailed(player), &mut out);
                },
            },
            MeshInput::ControlOpen { player } => {
                match (PeerControl::Hello { net_version: NET_VERSION }).encode() {
                    Some(bytes) => {
                        push_out(&mut out, MeshOutput::SendControl { player, bytes });
                    },
                    None => {},
                }
            },
            MeshInput::ControlClosed { opened } => {
                self.fail(
                    if opened {
                        MeshError::ClosedMidHandshake
                    } else {
                        MeshError::NeverOpened
                    },
                    &mut out,
                );
            },
            MeshInput::Reply { player, bytes } => {
                self.handle_reply(player, bytes.as_slice(), &mut out);
            },
            MeshInput::Quiet { now } => match self.overdue(now) {
                Some(player) => {
                    self.fail(MeshError::Departed(player), &mut out);
                },
                None => {},
            },
            MeshInput::TimedOut => {
                self.fail(MeshError::TimedOut, &mut out);
            },
        }
        proof {
            assert(mesh_outputs_view(out@) =~= want.out);
            assert(self@ =~= want.mesh);
        }
        out
    }
}

// ---------------------------------------------------------------------
// Laws
// ---------------------------------------------------------------------

/// Of two players who build a mesh together, exactly one makes the offer: the
/// lower one.
pub proof fn law_one_side_offers(a: u32, b: u32, n: u32)
    requires
        a < b < n,
    ensures
        mesh_start(a, n).out.contains(MeshOutputView::Connect { player: b, offer: true }),
        mesh_start(b, n).out.contains(MeshOutputView::Connect { player: a, offer: false }),
        !mesh_start(a, n).out.contains(MeshOutputView::Connect { player: b, offer: false }),
        !mesh_start(b, n).out.contains(MeshOutputView::Connect { player: a, offer: true }),
{
    lemma_others(a, n as nat);
    lemma_others(b, n as nat);
    let oa = others(a, n as nat);
    let ob = others(b, n as nat);
    let i = choose|i: int| 0 <= i < oa.len() && oa[i] == b;
    let j = choose|j: int| 0 <= j < ob.len() && ob[j] == a;
    assert(oa.contains(b) && ob.contains(a));
    assert(mesh_start(a, n).out[i] == MeshOutputView::Connect { player: b, offer: true });
    assert(mesh_start(b, n).out[j] == MeshOutputView::Connect { player: a, offer: false });
}

pub proof fn lemma_others(local: u32, n: nat)
    requires
        n <= u32::MAX,
    ensures
        others(local, n).len() == (if local < n {
            n - 1
        } else {
            n as int
        }),
        forall|p: u32| #[trigger] others(local, n).contains(p) <==> p < n && p != local,
    decreases n,
{
    if n > 0 {
        let rest = others(local, (n - 1) as nat);
        lemma_others(local, (n - 1) as nat);
        if n - 1 != local {
            let last = (n - 1) as u32;
            assert forall|p: u32| #[trigger] others(local, n).contains(p) implies p < n && p
                != local by {
                if p != last {
                    let k = choose|k: int| 0 <= k < rest.push(last).len() && rest.push(last)[k] == p;
                    assert(rest[k] == p);
                    assert(rest.contains(p));
                }
            }
            assert forall|p: u32| p < n && p != local implies #[trigger] others(local, n).contains(
                p,
            ) by {
                if p == last {
                    assert(rest.push(last)[rest.len() as int] == p);
                } else {
                    assert(rest.contains(p));
                    let k = choose|k: int| 0 <= k < rest.len() && rest[k] == p;
                    assert(rest.push(last)[k] == p);
                }
            }
        } else {
            assert forall|p: u32| #[trigger] others(local, n).contains(p) <==> p < n && p
                != local by {
                assert(rest.contains(p) <==> p < n - 1 && p != local);
            }
        }
    }
}

/// A mesh connects to every other player, and to nobody twice.
pub proof fn law_every_other_player_gets_an_edge(local: u32, n: u32)
    requires
        local < n,
    ensures
        mesh_start(local, n).mesh.edges.len() == n - 1,
        forall|p: u32|
            p < n && p != local ==> #[trigger] mesh_start(local, n).mesh.edges.contains(
                fresh_edge(p),
            ),
{
    lemma_others(local, n as nat);
    let o = others(local, n as nat);
    assert forall|p: u32| p < n && p != local implies #[trigger] mesh_start(
        local,
        n,
    ).mesh.edges.contains(fresh_edge(p)) by {
        assert(o.contains(p));
        let i = choose|i: int| 0 <= i < o.len() && o[i] == p;
        assert(mesh_start(local, n).mesh.edges[i] == fresh_edge(p));
    }
}

/// Candidates that come early are not lost: those of a pending edge without a
/// description wait, and go out in the order they came once it is set.
pub proof fn law_early_candidates_wait_their_turn(
    m: MeshView,
    player: u32,
    first: Seq<u8>,
    second: Seq<u8>,
    a: Seq<char>,
    b: Seq<char>,
)
    requires
        !m.over,
        pending(m, player) matches Some(i) && m.edges[i] == fresh_edge(player),
        read_signal(first) == Some(PeerSignalView::Candidate { candidate: a }),
        read_signal(second) == Some(PeerSignalView::Candidate { candidate: b }),
    ensures
        ({
            let m1 = on_signal(m, player, first);
            let m2 = on_signal(m1.mesh, player, second);
            let m3 = mesh_step(m2.mesh, MeshInputView::Accepted { player });
            &&& m1.out.len() == 0
            &&& m2.out.len() == 0
            &&& m3.out == adding(player, seq![a, b])
        }),
{
    let i = pending(m, player).unwrap();
    lemma_pending(m.edges, player, 0);
    let m1 = on_signal(m, player, first).mesh;
    lemma_same_pending(m.edges, m1.edges, player, 0);
    assert(m1.edges[i].queued_candidates =~= seq![a]);
    let m2 = on_signal(m1, player, second).mesh;
    lemma_same_pending(m1.edges, m2.edges, player, 0);
    assert(m2.edges[i].queued_candidates =~= seq![a, b]);
}

proof fn lemma_pending(edges: Seq<EdgeView>, player: u32, k: int)
    requires
        0 <= k,
    ensures
        pending_from(edges, player, k) matches Some(i) ==> k <= i < edges.len() && edges[i].player
            == player && !edges[i].up,
    decreases edges.len() - k,
{
    if k < edges.len() {
        lemma_pending(edges, player, k + 1);
    }
}

proof fn lemma_same_pending(a: Seq<EdgeView>, b: Seq<EdgeView>, player: u32, k: int)
    requires
        0 <= k,
        a.len() == b.len(),
        forall|i: int|
            0 <= i < a.len() ==> (#[trigger] a[i]).player == b[i].player && a[i].up == b[i].up,
    ensures
        pending_from(a, player, k) == pending_from(b, player, k),
    decreases a.len() - k,
{
    if k < a.len() {
        assert(a[k].player == b[k].player);
        lemma_same_pending(a, b, player, k + 1);
    }
}

/// A mesh ends once: after it is up or has failed, nothing more is done.
pub proof fn law_a_mesh_ends_once(m: MeshView, input: MeshInputView, later: MeshInputView)
    ensures
        (mesh_step(m, input).out.contains(MeshOutputView::Up) || exists|e: MeshErrorView|
            #[trigger] mesh_step(m, input).out.contains(MeshOutputView::Fail(e)))
            ==> mesh_step(m, input).mesh.over,
        m.over ==> mesh_step(m, later) == doing(m, Seq::empty()),
{
    let out = mesh_step(m, input).out;
    if !mesh_step(m, input).mesh.over {
        assert forall|k: int| 0 <= k < out.len() implies !(#[trigger] out[k] is Up) && !(
        out[k] is Fail) by {
            lemma_running_outputs(m, input, k);
        }
    }
}

proof fn lemma_running_outputs(m: MeshView, input: MeshInputView, k: int)
    requires
        !mesh_step(m, input).mesh.over,
        0 <= k < mesh_step(m, input).out.len(),
    ensures
        !(mesh_step(m, input).out[k] is Up),
        !(mesh_step(m, input).out[k] is Fail),
{
    match input {
        MeshInputView::Answered { player, sdp } => {
            if k > 0 {
                let i = pending(m, player).unwrap();
                assert(mesh_step(m, input).out[k] == adding(
                    player,
                    m.edges[i].queued_candidates,
                )[k - 1]);
            }
        },
        _ => {},
    }
}

/// A peer whose signaling socket closes after its edge is up is no loss, and a
/// handshake that ends in time stops its clock.
pub proof fn law_the_connected_may_leave(m: MeshView, player: u32, now: u64, i: int)
    requires
        !m.over,
        pending(m, player) == Some(i),
    ensures
        ({
            let up = joined(m, i).mesh;
            &&& !has_departed(up.departed, player)
            &&& on_peer_left(up, player, now) == doing(up, Seq::empty())
        }),
{
    lemma_pending(m.edges, player, 0);
    let up = joined(m, i).mesh;
    assert(up.edges[i].player == player && up.edges[i].up);
    lemma_filtered(m.departed, player);
}

proof fn lemma_filtered(d: Seq<(u32, u64)>, player: u32)
    ensures
        !has_departed(without(d, player), player),
    decreases d.len(),
{
    reveal(Seq::filter);
    if d.len() > 0 {
        lemma_filtered(d.drop_last(), player);
        let rest = without(d.drop_last(), player);
        if d.last().0 != player {
            assert forall|i: int| 0 <= i < rest.push(d.last()).len() implies (
            #[trigger] rest.push(d.last())[i]).0 != player by {
                if i < rest.len() {
                    assert(rest[i].0 != player);
                }
            }
        }
    }
}

} // verus!
