//! What holds of a mesh on its way up, said of what goes in and what comes out.
use vstd::prelude::*;
use crate::net::mesh::{
    all_up, mesh_error_text, mesh_outputs_view, mesh_start, mesh_step, overdue_from, pending_from,
    without, EdgeView, MeshError, MeshErrorView, MeshInput, MeshOutput, MeshView, PeerEvent,
};
use crate::net::protocol::{
    law_controls_read_back, law_signals_read_back, read_control, read_signal, signal_bytes,
    PeerControlView, PeerSignalView,
};
use crate::signaling::client_message;
use crate::signaling::codec::decoded;
use crate::signaling::server_message;
use crate::signaling::{ServerMessage, ServerMessageView};
use crate::text::decimal;

verus! {

/// Whether these are what a mesh does with something, and this is the mesh
/// after it.
pub open spec fn does(
    m: MeshView,
    input: MeshInput,
    after: MeshView,
    outs: Seq<MeshOutput>,
) -> bool {
    let o = mesh_step(m, input@);
    o.mesh == after && o.out == mesh_outputs_view(outs)
}

/// Whether bytes hold a message of the server.
pub open spec fn holds(bytes: Seq<u8>, m: server_message::Msg) -> bool {
    decoded::<ServerMessage>(bytes) == Some(ServerMessageView { msg: Some(m@) })
}

/// Whether bytes hold a signal that the server relays from a player.
pub open spec fn relays(bytes: Seq<u8>, from: u32, payload: Seq<u8>) -> bool {
    exists|s: crate::signaling::Signal| #[trigger]
        holds(bytes, server_message::Msg::Signal(s)) && s.peer == from && s.payload@ == payload
}

/// Whether an edge is the one of a player that is still on its way up.
pub open spec fn is_pending(m: MeshView, player: u32, i: int) -> bool {
    &&& 0 <= i < m.edges.len()
    &&& m.edges[i].player == player && !m.edges[i].up
    &&& forall|k: int| 0 <= k < i ==> (#[trigger] m.edges[k]).player != player || m.edges[k].up
}

proof fn lemma_pending_is(edges: Seq<EdgeView>, player: u32, from: int, i: int)
    requires
        0 <= from <= i < edges.len(),
        edges[i].player == player && !edges[i].up,
        forall|k: int| from <= k < i ==> (#[trigger] edges[k]).player != player || edges[k].up,
    ensures
        pending_from(edges, player, from) == Some(i),
    decreases i - from,
{
    if from < i {
        assert(edges[from].player != player || edges[from].up);
        lemma_pending_is(edges, player, from + 1, i);
    }
}

proof fn lemma_none_pending(edges: Seq<EdgeView>, player: u32, from: int)
    requires
        0 <= from,
        forall|k: int|
            from <= k < edges.len() ==> (#[trigger] edges[k]).player != player || edges[k].up,
    ensures
        pending_from(edges, player, from) is None,
    decreases edges.len() - from,
{
    if from < edges.len() {
        assert(edges[from].player != player || edges[from].up);
        lemma_none_pending(edges, player, from + 1);
    }
}

// ---------------------------------------------------------------------
// Descriptions and candidates
// ---------------------------------------------------------------------

/// Whether an output sends a signal to a player, and with what payload.
pub open spec fn sends_signal(o: MeshOutput, to: u32, payload: Seq<u8>) -> bool {
    o matches MeshOutput::Send(m) && m.msg matches Some(client_message::Msg::Signal(s)) && s.peer
        == to && s.payload@ == payload
}

/// An offer goes to the player it is for, and where it arrives it is accepted
/// as an offer, of the one who made it, as it was made.
pub proof fn law_offers_arrive(
    a: MeshView,
    a1: MeshView,
    a_outs: Seq<MeshOutput>,
    b: MeshView,
    b1: MeshView,
    b_outs: Seq<MeshOutput>,
    from: u32,
    to: u32,
    sdp: String,
    bytes: Vec<u8>,
    payload: Seq<u8>,
    now: u64,
    i: int,
)
    requires
        !a.over && !b.over,
        does(a, MeshInput::OfferMade { player: to, sdp }, a1, a_outs),
        is_pending(b, from, i),
        relays(bytes@, from, payload),
        does(b, MeshInput::Received { bytes, now }, b1, b_outs),
        a_outs.len() == 1 && sends_signal(a_outs[0], to, payload),
        payload.len() <= u64::MAX,
    ensures
        a1 == a,
        b1 == b,
        b_outs.len() == 1,
        b_outs[0] matches MeshOutput::AcceptOffer { player, sdp: s } && player == from && s@
            == sdp@,
{
    let d = PeerSignalView::Description { sdp_type: "offer"@, sdp: sdp@ };
    assert(mesh_outputs_view(a_outs)[0] == a_outs[0]@);
    assert(payload == signal_bytes(d));
    law_signals_read_back(d);
    lemma_pending_is(b.edges, from, 0, i);
    assert(mesh_outputs_view(b_outs).len() == b_outs.len());
    assert(mesh_outputs_view(b_outs)[0] == b_outs[0]@);
}

/// An offer that was made is sent, to the one it is for and to nobody else.
pub proof fn law_offers_are_sent(
    m: MeshView,
    player: u32,
    sdp: String,
    after: MeshView,
    outs: Seq<MeshOutput>,
)
    requires
        !m.over,
        does(m, MeshInput::OfferMade { player, sdp }, after, outs),
    ensures
        after == m,
        outs.len() == 1,
        sends_signal(
            outs[0],
            player,
            signal_bytes(PeerSignalView::Description { sdp_type: "offer"@, sdp: sdp@ }),
        ),
{
    assert(mesh_outputs_view(outs).len() == outs.len());
    assert(mesh_outputs_view(outs)[0] == outs[0]@);
}

/// Once an offer is accepted the answer goes back to whoever made it; where it
/// arrives it is accepted as an answer. The candidates that waited for the
/// description are added then, in the order they came, and wait no longer.
pub proof fn law_answers_go_back(
    m: MeshView,
    player: u32,
    sdp: String,
    after: MeshView,
    outs: Seq<MeshOutput>,
    i: int,
    k: int,
)
    requires
        !m.over,
        is_pending(m, player, i),
        does(m, MeshInput::Answered { player, sdp }, after, outs),
    ensures
        ({
            let waited = m.edges[i].queued_candidates;
            &&& outs.len() == 1 + waited.len()
            &&& sends_signal(
                outs[0],
                player,
                signal_bytes(PeerSignalView::Description { sdp_type: "answer"@, sdp: sdp@ }),
            )
            &&& 0 <= k < waited.len() ==> (outs[1 + k] matches MeshOutput::AddCandidate {
                player: p,
                candidate,
            } && p == player && candidate@ == waited[k])
            &&& after == (MeshView {
                edges: m.edges.update(
                    i,
                    EdgeView {
                        remote_description_set: true,
                        queued_candidates: Seq::empty(),
                        ..m.edges[i]
                    },
                ),
                ..m
            })
        }),
{
    lemma_pending_is(m.edges, player, 0, i);
    assert(mesh_outputs_view(outs).len() == outs.len());
    assert(mesh_outputs_view(outs)[0] == outs[0]@);
    if 0 <= k < m.edges[i].queued_candidates.len() {
        assert(mesh_outputs_view(outs)[1 + k] == outs[1 + k]@);
    }
}

/// What a relayed signal is taken for: an offer is accepted, an answer is
/// accepted, a candidate is added where the description is set and waits behind
/// the others where it is not. A description of another kind fails the mesh.
/// From whoever has no pending edge, or where it cannot be read, it is let
/// pass.
pub proof fn law_what_comes_of_a_signal(
    m: MeshView,
    from: u32,
    bytes: Vec<u8>,
    payload: Seq<u8>,
    now: u64,
    after: MeshView,
    outs: Seq<MeshOutput>,
    i: int,
    t: Seq<char>,
    s: Seq<char>,
)
    requires
        !m.over,
        relays(bytes@, from, payload),
        does(m, MeshInput::Received { bytes, now }, after, outs),
    ensures
        is_pending(m, from, i) ==> {
            &&& read_signal(payload) == Some(
                PeerSignalView::Description { sdp_type: "offer"@, sdp: s },
            ) ==> after == m && outs.len() == 1 && (outs[0] matches MeshOutput::AcceptOffer {
                player,
                sdp,
            } && player == from && sdp@ == s)
            &&& read_signal(payload) == Some(
                PeerSignalView::Description { sdp_type: "answer"@, sdp: s },
            ) ==> after == m && outs.len() == 1 && (outs[0] matches MeshOutput::AcceptAnswer {
                player,
                sdp,
            } && player == from && sdp@ == s)
            &&& read_signal(payload) == Some(PeerSignalView::Description { sdp_type: t, sdp: s })
                && t != "offer"@ && t != "answer"@ ==> after.over && outs.len() == 1 && (
            outs[0] matches MeshOutput::Fail(MeshError::UnknownSdpType(k)) && k@ == t)
            &&& read_signal(payload) == Some(PeerSignalView::Candidate { candidate: s }) ==> {
                &&& m.edges[i].remote_description_set ==> after == m && outs.len() == 1 && (
                outs[0] matches MeshOutput::AddCandidate { player, candidate } && player == from
                    && candidate@ == s)
                &&& !m.edges[i].remote_description_set ==> outs.len() == 0 && after == (MeshView {
                    edges: m.edges.update(
                        i,
                        EdgeView {
                            queued_candidates: m.edges[i].queued_candidates.push(s),
                            ..m.edges[i]
                        },
                    ),
                    ..m
                })
            }
        },
        read_signal(payload) is None ==> after == m && outs.len() == 0,
        (forall|k: int|
            0 <= k < m.edges.len() ==> (#[trigger] m.edges[k]).player != from || m.edges[k].up)
            ==> after == m && outs.len() == 0,
{
    reveal_strlit("offer");
    reveal_strlit("answer");
    assert("offer"@.len() != "answer"@.len());
    if is_pending(m, from, i) {
        lemma_pending_is(m.edges, from, 0, i);
    }
    if forall|k: int|
        0 <= k < m.edges.len() ==> (#[trigger] m.edges[k]).player != from || m.edges[k].up {
        lemma_none_pending(m.edges, from, 0);
    }
    assert(mesh_outputs_view(outs).len() == outs.len());
    if outs.len() > 0 {
        assert(mesh_outputs_view(outs)[0] == outs[0]@);
    }
}

/// A candidate of one's own goes to the player it is for, and reads there as it
/// was gathered. A connection that failed fails the mesh, and says whose it
/// was.
pub proof fn law_candidates_are_trickled(
    m: MeshView,
    player: u32,
    event: PeerEvent,
    after: MeshView,
    outs: Seq<MeshOutput>,
)
    requires
        !m.over,
        does(m, MeshInput::Peer { player, event }, after, outs),
    ensures
        outs.len() == 1,
        event matches PeerEvent::Candidate(c) ==> after == m && sends_signal(
            outs[0],
            player,
            signal_bytes(PeerSignalView::Candidate { candidate: c@ }),
        ),
        event is Failed ==> after == (MeshView { over: true, ..m }) && (outs[0] matches
            MeshOutput::Fail(MeshError::ConnectionFailed(p)) && p == player),
{
    assert(mesh_outputs_view(outs).len() == outs.len());
    assert(mesh_outputs_view(outs)[0] == outs[0]@);
}

/// An answer that was accepted sets the description: what waited for it is
/// added in order.
pub proof fn law_accepted_answers_let_candidates_in(
    m: MeshView,
    player: u32,
    after: MeshView,
    outs: Seq<MeshOutput>,
    i: int,
    k: int,
)
    requires
        !m.over,
        is_pending(m, player, i),
        does(m, MeshInput::Accepted { player }, after, outs),
    ensures
        outs.len() == m.edges[i].queued_candidates.len(),
        0 <= k < outs.len() ==> (outs[k] matches MeshOutput::AddCandidate { player: p, candidate }
            && p == player && candidate@ == m.edges[i].queued_candidates[k]),
        after.edges[i].remote_description_set,
        after.edges[i].queued_candidates.len() == 0,
        !after.edges[i].up,
        after.edges.len() == m.edges.len(),
        0 <= k < m.edges.len() && k != i ==> after.edges[k] == m.edges[k],
        after.departed == m.departed && !after.over,
{
    lemma_pending_is(m.edges, player, 0, i);
    assert(mesh_outputs_view(outs).len() == outs.len());
    if 0 <= k < outs.len() {
        assert(mesh_outputs_view(outs)[k] == outs[k]@);
    }
}

// ---------------------------------------------------------------------
// The handshake
// ---------------------------------------------------------------------

/// The handshake: whoever's control channel opens is greeted, in version three,
/// and a greeting in that version brings the edge of the one who sent it up and
/// no other's. The mesh is up exactly when the last edge is.
pub proof fn law_greetings_bring_edges_up(
    m: MeshView,
    player: u32,
    bytes: Vec<u8>,
    after: MeshView,
    outs: Seq<MeshOutput>,
    i: int,
    k: int,
)
    requires
        !m.over,
        is_pending(m, player, i),
        read_control(bytes@) == Some(PeerControlView::Hello { net_version: 3 }),
        does(m, MeshInput::Reply { player, bytes }, after, outs),
        0 <= k < m.edges.len(),
    ensures
        after.edges.len() == m.edges.len(),
        after.edges[i] == (EdgeView { up: true, ..m.edges[i] }),
        k != i ==> after.edges[k] == m.edges[k],
        after.over ==> outs.len() == 1 && outs[0] is Up && after.edges[k].up,
        !after.over ==> outs.len() == 0,
        (forall|j: int| 0 <= j < m.edges.len() && j != i ==> (#[trigger] m.edges[j]).up)
            ==> after.over,
        forall|d: (u32, u64)| #[trigger]
            after.departed.contains(d) <==> m.departed.contains(d) && d.0 != player,
{
    lemma_without(m.departed, player);
    lemma_pending_is(m.edges, player, 0, i);
    assert(mesh_outputs_view(outs).len() == outs.len());
    if outs.len() > 0 {
        assert(mesh_outputs_view(outs)[0] == outs[0]@);
    }
    if after.over {
        assert(all_up(after.edges));
    }
    if forall|j: int| 0 <= j < m.edges.len() && j != i ==> (#[trigger] m.edges[j]).up {
        assert forall|j: int| 0 <= j < after.edges.len() implies (#[trigger] after.edges[j]).up by {
            if j != i {
                assert(m.edges[j].up);
            }
        }
        assert(all_up(m.edges.update(i, EdgeView { up: true, ..m.edges[i] })));
    }
}

proof fn lemma_without(departed: Seq<(u32, u64)>, player: u32)
    ensures
        forall|d: (u32, u64)| #[trigger]
            without(departed, player).contains(d) <==> departed.contains(d) && d.0 != player,
    decreases departed.len(),
{
    reveal(Seq::filter);
    let w = without(departed, player);
    if departed.len() > 0 {
        let rest = departed.drop_last();
        let last = departed.last();
        lemma_without(rest, player);
        let r = without(rest, player);
        assert forall|d: (u32, u64)| #[trigger] w.contains(d) <==> departed.contains(d) && d.0
            != player by {
            if w.contains(d) {
                let k = choose|k: int| 0 <= k < w.len() && w[k] == d;
                if k < r.len() {
                    assert(r[k] == d);
                    assert(r.contains(d));
                    let j = choose|j: int| 0 <= j < rest.len() && rest[j] == d;
                    assert(departed[j] == d);
                } else {
                    assert(departed[departed.len() - 1] == d);
                }
            }
            if departed.contains(d) && d.0 != player {
                let k = choose|k: int| 0 <= k < departed.len() && departed[k] == d;
                if k < rest.len() {
                    assert(rest[k] == d);
                    assert(rest.contains(d));
                    assert(r.contains(d));
                    let j = choose|j: int| 0 <= j < r.len() && r[j] == d;
                    assert(w[j] == d);
                } else {
                    assert(w[w.len() - 1] == d);
                }
            }
        }
    }
}

/// What a control channel that opens is sent reads as a greeting in version
/// three, and goes to that player.
pub proof fn law_open_channels_are_greeted(
    m: MeshView,
    player: u32,
    after: MeshView,
    outs: Seq<MeshOutput>,
)
    requires
        !m.over,
        does(m, MeshInput::ControlOpen { player }, after, outs),
    ensures
        after == m,
        outs.len() == 1,
        outs[0] matches MeshOutput::SendControl { player: p, bytes } && p == player
            && read_control(bytes@) == Some(PeerControlView::Hello { net_version: 3 }),
{
    let hello = PeerControlView::Hello { net_version: 3 };
    law_controls_read_back(hello, Seq::empty());
    assert(crate::net::protocol::control_bytes(hello) + Seq::<u8>::empty()
        =~= crate::net::protocol::control_bytes(hello));
    assert(mesh_outputs_view(outs).len() == outs.len());
    assert(mesh_outputs_view(outs)[0] == outs[0]@);
}

/// What fails a handshake: another version, something that is no greeting,
/// something that cannot be read, and a greeting of whoever has no pending
/// edge.
pub proof fn law_what_fails_a_handshake(
    m: MeshView,
    player: u32,
    bytes: Vec<u8>,
    after: MeshView,
    outs: Seq<MeshOutput>,
)
    requires
        !m.over,
        does(m, MeshInput::Reply { player, bytes }, after, outs),
    ensures
        read_control(bytes@) matches Some(PeerControlView::Hello { net_version }) ==> net_version
            != 3 ==> after.over && outs.len() == 1 && (outs[0] matches MeshOutput::Fail(
            MeshError::Incompatible(v),
        ) && v == net_version),
        read_control(bytes@) is None ==> after.over && outs.len() == 1 && (outs[0] matches
            MeshOutput::Fail(MeshError::BadHandshake)),
        read_control(bytes@) matches Some(c) ==> !(c is Hello) ==> after.over && outs.len() == 1
            && (outs[0] matches MeshOutput::Fail(MeshError::NotHello(x)) && x@ == c),
        read_control(bytes@) == Some(PeerControlView::Hello { net_version: 3 }) && (forall|k: int|
            0 <= k < m.edges.len() ==> (#[trigger] m.edges[k]).player != player || m.edges[k].up)
            ==> after.over && outs.len() == 1 && (outs[0] matches MeshOutput::Fail(
            MeshError::UnknownPeer,
        )),
{
    if forall|k: int|
        0 <= k < m.edges.len() ==> (#[trigger] m.edges[k]).player != player || m.edges[k].up {
        lemma_none_pending(m.edges, player, 0);
    }
    assert(mesh_outputs_view(outs).len() == outs.len());
    if outs.len() > 0 {
        assert(mesh_outputs_view(outs)[0] == outs[0]@);
    }
}

// ---------------------------------------------------------------------
// The departed
// ---------------------------------------------------------------------

/// A player who leaves the server while their edge is pending has ten seconds:
/// their clock starts when they left, once. Whoever's edge is up may go.
pub proof fn law_the_departed_have_a_grace(
    m: MeshView,
    bytes: Vec<u8>,
    msg: server_message::Msg,
    now: u64,
    after: MeshView,
    outs: Seq<MeshOutput>,
)
    requires
        !m.over,
        holds(bytes@, msg),
        msg is PeerLeft,
        does(m, MeshInput::Received { bytes, now }, after, outs),
    ensures
        ({
            let player = msg->PeerLeft_0.player_idx;
            let up = exists|i: int|
                0 <= i < m.edges.len() && (#[trigger] m.edges[i]).player == player
                    && m.edges[i].up;
            let known = exists|i: int|
                0 <= i < m.departed.len() && (#[trigger] m.departed[i]).0 == player;
            &&& outs.len() == 0
            &&& up || known ==> after == m
            &&& !up && !known ==> after == (MeshView {
                departed: m.departed.push((player, now)),
                ..m
            })
        }),
{
    assert(mesh_outputs_view(outs).len() == outs.len());
}

/// The mesh fails once the grace of someone who left is over, and not before:
/// whoever is named left more than ten seconds ago.
pub proof fn law_the_grace_is_ten_seconds(
    m: MeshView,
    now: u64,
    after: MeshView,
    outs: Seq<MeshOutput>,
    i: int,
)
    requires
        !m.over,
        does(m, MeshInput::Quiet { now }, after, outs),
        0 <= i < m.departed.len(),
    ensures
        now - m.departed[i].1 > 10_000 ==> after.over && outs.len() == 1 && (outs[0] matches
            MeshOutput::Fail(MeshError::Departed(_))),
        (forall|k: int| 0 <= k < m.departed.len() ==> now - (#[trigger] m.departed[k]).1 <= 10_000)
            ==> after == m && outs.len() == 0,
        after.over ==> (outs[0] matches MeshOutput::Fail(MeshError::Departed(p)) && exists|k: int|
            0 <= k < m.departed.len() && (#[trigger] m.departed[k]).0 == p && now
                - m.departed[k].1 > 10_000),
{
    lemma_overdue(m.departed, now, 0);
    assert(mesh_outputs_view(outs).len() == outs.len());
    if outs.len() > 0 {
        assert(mesh_outputs_view(outs)[0] == outs[0]@);
    }
}

proof fn lemma_overdue(departed: Seq<(u32, u64)>, now: u64, from: int)
    requires
        0 <= from,
    ensures
        match overdue_from(departed, now, from) {
            Some(p) => exists|k: int|
                from <= k < departed.len() && (#[trigger] departed[k]).0 == p && now
                    - departed[k].1 > 10_000,
            None => forall|k: int|
                from <= k < departed.len() ==> now - (#[trigger] departed[k]).1 <= 10_000,
        },
    decreases departed.len() - from,
{
    if from < departed.len() {
        lemma_overdue(departed, now, from + 1);
        if now - departed[from].1 > 10_000 {
            assert(departed[from].0 == overdue_from(departed, now, from).unwrap());
        }
    }
}

// ---------------------------------------------------------------------
// The rest
// ---------------------------------------------------------------------

/// What fails a mesh from outside, and what of the server's messages is set
/// aside for whoever minds the room: all but signals and departures.
pub proof fn law_what_else_befalls_a_mesh(
    m: MeshView,
    input: MeshInput,
    after: MeshView,
    outs: Seq<MeshOutput>,
    msg: server_message::Msg,
)
    requires
        !m.over,
        does(m, input, after, outs),
    ensures
        input is TimedOut ==> after.over && outs.len() == 1 && (outs[0] matches MeshOutput::Fail(
            MeshError::TimedOut,
        )),
        input is SocketClosed ==> after.over && outs.len() == 1 && (outs[0] matches
            MeshOutput::Fail(MeshError::SignalingLost)),
        input matches MeshInput::ControlClosed { opened } ==> after.over && outs.len() == 1 && (
        outs[0] matches MeshOutput::Fail(e) && if opened {
            e is ClosedMidHandshake
        } else {
            e is NeverOpened
        }),
        input matches MeshInput::Received { bytes, .. } ==> holds(bytes@, msg) && !(msg is Signal)
            && !(msg is PeerLeft) ==> after == m && outs.len() == 1 && (outs[0] matches
            MeshOutput::SetAside(x) && x@ == msg@),
{
    assert(mesh_outputs_view(outs).len() == outs.len());
    if outs.len() > 0 {
        assert(mesh_outputs_view(outs)[0] == outs[0]@);
    }
}

/// A mesh begins by connecting to every other player, each once: making the
/// offer to those behind, and waiting for it from those in front. No edge is up
/// yet.
pub proof fn law_how_a_mesh_begins(local: u32, n: u32, outs: Seq<MeshOutput>, i: int)
    requires
        local < n,
        n >= 2,
        mesh_start(local, n).out == mesh_outputs_view(outs),
        0 <= i < outs.len(),
    ensures
        outs.len() == n - 1,
        outs[i] matches MeshOutput::Connect { player, offer } && player != local && player < n
            && offer == (local < player),
        !mesh_start(local, n).mesh.over,
        mesh_start(local, n).mesh.departed.len() == 0,
        !mesh_start(local, n).mesh.edges[i].up,
        !mesh_start(local, n).mesh.edges[i].remote_description_set,
        mesh_start(local, n).mesh.edges[i].queued_candidates.len() == 0,
{
    crate::net::mesh::lemma_others(local, n as nat);
    assert(mesh_outputs_view(outs).len() == outs.len());
    assert(mesh_outputs_view(outs)[i] == outs[i]@);
    assert(crate::net::mesh::others(local, n as nat).contains(
        crate::net::mesh::others(local, n as nat)[i],
    ));
}

/// What is said of a mesh that does not come up; players are counted from one.
pub proof fn law_what_is_said_of_a_failed_mesh(p: u32)
    ensures
        mesh_error_text(MeshErrorView::TimedOut) == "timed out connecting to peers"@,
        mesh_error_text(MeshErrorView::SignalingLost) == "signaling server connection lost"@,
        mesh_error_text(MeshErrorView::ConnectionFailed(p)) == "connection to player "@ + decimal(
            p as nat + 1,
        ) + " failed"@,
        mesh_error_text(MeshErrorView::Departed(p)) == "player "@ + decimal(p as nat + 1)
            + " left during connection setup"@,
        mesh_error_text(MeshErrorView::NeverOpened) == "control channel closed before opening"@,
        mesh_error_text(MeshErrorView::ClosedMidHandshake)
            == "control channel closed during handshake"@,
        mesh_error_text(MeshErrorView::BadHandshake) == "bad handshake message"@,
        mesh_error_text(MeshErrorView::Incompatible(p)) == "peer runs incompatible net protocol "@
            + decimal(p as nat) + " (we run "@ + decimal(3) + ")"@,
        mesh_error_text(MeshErrorView::UnknownPeer) == "handshake for unknown peer"@,
{
}

} // verus!
