//! What holds of a netplay session as a whole: what of the network reaches the
//! engine, what of the engine reaches the peers, and how a session ends.
use vstd::prelude::*;
use crate::net::protocol::{control_bytes, unpacked_blob, Input, Meta, PeerControlView};
use crate::session::netplay::tick::{ticked, Stage, TickAction, TickEvent};
use crate::session::netplay::{
    acked, checkpoints_taken, confirmed_count, drained, finished, first_desync, heard,
    input_events, is_quietest, meta_of, peer_stat, peers_view, recent, sent_now, slot_from, started,
    told, Captured, GoneReason, NetEvent, NetplayArgs, NetplayDriver, NetplaySession, PeerCtxView,
    RemoteInput,
};
use crate::session::{SessionEnd, SharedSession};

verus! {

// ---------------------------------------------------------------------
// What the network brings
// ---------------------------------------------------------------------

proof fn lemma_slot(peers: Seq<PeerCtxView>, player: usize, i: int)
    requires
        0 <= i <= peers.len(),
    ensures
        match slot_from(peers, player, i) {
            Some(j) => i <= j < peers.len() && peers[j].player == player && forall|k: int|
                i <= k < j ==> (#[trigger] peers[k]).player != player,
            None => forall|k: int| i <= k < peers.len() ==> (#[trigger] peers[k]).player != player,
        },
    decreases peers.len() - i,
{
    if i < peers.len() {
        lemma_slot(peers, player, i + 1);
    }
}

/// Every input the network brings before a peer is gone is handed to the engine
/// as it came and in order, all sixteen bits of its keys included. What is left
/// out begins with a peer that is gone, and then their going is how the session
/// ends: a quit where they said so, a disconnect otherwise.
pub proof fn law_every_input_is_handed_on(
    peers: Seq<PeerCtxView>,
    events: Seq<NetEvent>,
    now: u64,
)
    ensures
        ({
            let d = drained(peers, events, now);
            &&& d.inputs.len() <= events.len()
            &&& forall|i: int|
                0 <= i < d.inputs.len() ==> events[i] == (NetEvent::Input {
                    player: (#[trigger] d.inputs[i]).player,
                    keys: d.inputs[i].keys as u16,
                    tick_advantage: d.inputs[i].tick_advantage,
                }) && d.inputs[i].keys <= 0xffff
            &&& d.end is None ==> d.inputs.len() == events.len()
            &&& d.end matches Some(end) ==> d.inputs.len() < events.len() && (
            events[d.inputs.len() as int] matches NetEvent::Gone { player, reason } && end == (
            if reason == GoneReason::Quit {
                SessionEnd::PeerQuit { player }
            } else {
                SessionEnd::PeerDisconnected { player }
            }))
        }),
    decreases events.len(),
{
    let d = drained(peers, events, now);
    if events.len() > 0 {
        match events[0] {
            NetEvent::Input { player, keys, tick_advantage } => {
                let rest = drained(heard(peers, player, now), events.skip(1), now);
                law_every_input_is_handed_on(heard(peers, player, now), events.skip(1), now);
                assert(d.inputs.skip(1) =~= rest.inputs);
                assert forall|i: int| 0 <= i < d.inputs.len() implies events[i] == (
                NetEvent::Input {
                    player: (#[trigger] d.inputs[i]).player,
                    keys: d.inputs[i].keys as u16,
                    tick_advantage: d.inputs[i].tick_advantage,
                }) && d.inputs[i].keys <= 0xffff by {
                    if i > 0 {
                        assert(d.inputs[i] == rest.inputs[i - 1]);
                        assert(events[i] == events.skip(1)[i - 1]);
                    }
                }
                if d.end is Some {
                    assert(events.skip(1)[rest.inputs.len() as int] == events[d.inputs.len()
                        as int]);
                }
            },
            NetEvent::Gone { .. } => {},
        }
    }
}

/// Whether a player is heard of before a peer is gone.
pub open spec fn speaks(events: Seq<NetEvent>, player: usize) -> bool {
    exists|i: int|
        0 <= i < events.len() && (#[trigger] events[i] matches NetEvent::Input { player: p, .. }
            && p == player) && forall|k: int| 0 <= k < i ==> (#[trigger] events[k]) is Input
}

/// Draining the network dates exactly the peers it brought an input of, and
/// changes nothing else of anyone.
pub proof fn law_who_speaks_is_dated(
    peers: Seq<PeerCtxView>,
    events: Seq<NetEvent>,
    now: u64,
    j: int,
)
    requires
        0 <= j < peers.len(),
        forall|a: int, b: int|
            0 <= a < b < peers.len() ==> (#[trigger] peers[a]).player != (
            #[trigger] peers[b]).player,
    ensures
        ({
            let after = drained(peers, events, now).peers;
            &&& after.len() == peers.len()
            &&& after[j] == (PeerCtxView {
                last_heard: if speaks(events, peers[j].player) {
                    now
                } else {
                    peers[j].last_heard
                },
                ..peers[j]
            })
        }),
    decreases events.len(),
{
    let who = peers[j].player;
    if events.len() > 0 {
        match events[0] {
            NetEvent::Input { player, keys, tick_advantage } => {
                let next = heard(peers, player, now);
                lemma_slot(peers, player, 0);
                assert(next.len() == peers.len());
                assert forall|a: int| 0 <= a < peers.len() implies (#[trigger] next[a]).player
                    == peers[a].player by {}
                assert(player == who ==> slot_from(peers, player, 0) == Some(j));
                law_who_speaks_is_dated(next, events.skip(1), now, j);
                let left = events.skip(1);
                if speaks(left, who) {
                    let i = choose|i: int|
                        0 <= i < left.len() && (#[trigger] left[i] matches NetEvent::Input {
                            player: p,
                            ..
                        } && p == who) && forall|k: int|
                            0 <= k < i ==> (#[trigger] left[k]) is Input;
                    assert(events[i + 1] == left[i]);
                    assert forall|k: int| 0 <= k < i + 1 implies (#[trigger] events[k])
                        is Input by {
                        if k > 0 {
                            assert(left[k - 1] is Input);
                        }
                    }
                    assert(speaks(events, who));
                }
                if player == who {
                    assert(events[0] is Input);
                    assert(speaks(events, who));
                } else if speaks(events, who) {
                    let i = choose|i: int|
                        0 <= i < events.len() && (#[trigger] events[i] matches NetEvent::Input {
                            player: p,
                            ..
                        } && p == who) && forall|k: int|
                            0 <= k < i ==> (#[trigger] events[k]) is Input;
                    assert(left[i - 1] == events[i]);
                    assert forall|k: int| 0 <= k < i - 1 implies (#[trigger] left[k]) is Input by {
                        assert(events[k + 1] is Input);
                    }
                    assert(speaks(left, who));
                }
            },
            NetEvent::Gone { .. } => {
                if speaks(events, who) {
                    let i = choose|i: int|
                        0 <= i < events.len() && (#[trigger] events[i] matches NetEvent::Input {
                            player: p,
                            ..
                        } && p == who) && forall|k: int|
                            0 <= k < i ==> (#[trigger] events[k]) is Input;
                    assert(events[0] is Input);
                }
            },
        }
    }
}

/// What a peer's stream delivers comes out of a tick in the engine: for every
/// entry, in order, an input of that peer with the entry's keys and the
/// delivery's advantage.
pub proof fn law_a_delivery_reaches_the_engine(
    peers: Seq<PeerCtxView>,
    player: usize,
    meta: Meta,
    entries: Seq<Input>,
    now: u64,
)
    ensures
        ({
            let d = drained(peers, input_events(player, meta, entries), now);
            &&& d.end is None
            &&& d.inputs.len() == entries.len()
            &&& forall|i: int|
                0 <= i < entries.len() ==> (#[trigger] d.inputs[i]) == (RemoteInput {
                    player,
                    keys: entries[i].0 as u32,
                    tick_advantage: meta.tick_advantage,
                })
        }),
{
    let events = input_events(player, meta, entries);
    law_every_input_is_handed_on(peers, events, now);
    let d = drained(peers, events, now);
    if d.end is Some {
        assert(events[d.inputs.len() as int] is Input);
    }
    assert forall|i: int| 0 <= i < entries.len() implies (#[trigger] d.inputs[i]) == (RemoteInput {
        player,
        keys: entries[i].0 as u32,
        tick_advantage: meta.tick_advantage,
    }) by {
        assert(events[i] == (NetEvent::Input {
            player,
            keys: entries[i].0,
            tick_advantage: meta.tick_advantage,
        }));
    }
}

/// What is said of a tick is what the other side takes in: the advantage as it
/// is, and the checkpoint, tick and digest, where there is one. Tick 0 is no
/// checkpoint; without one the last one told stays.
pub proof fn law_checkpoints_cross_the_wire(
    p: PeerCtxView,
    tick_advantage: i16,
    checkpoint: Option<(u32, u32)>,
)
    requires
        checkpoint matches Some(c) ==> c.0 > 0,
    ensures
        ({
            let meta = meta_of(tick_advantage, checkpoint);
            &&& meta.tick_advantage == tick_advantage
            &&& told(p, meta) == (PeerCtxView {
                checkpoint: if checkpoint is Some {
                    checkpoint
                } else {
                    p.checkpoint
                },
                ..p
            })
        }),
{
}

// ---------------------------------------------------------------------
// Round trips
// ---------------------------------------------------------------------

/// Whether samples are in the order they were sent in.
pub open spec fn in_send_order(sent: Seq<(u32, u64)>) -> bool {
    forall|i: int, j: int| 0 <= i < j < sent.len() ==> (#[trigger] sent[i]).0 < (
    #[trigger] sent[j]).0
}

proof fn lemma_confirmed_count(sent: Seq<(u32, u64)>, frontier: u32)
    requires
        in_send_order(sent),
    ensures
        confirmed_count(sent, frontier) <= sent.len(),
        forall|i: int|
            0 <= i < sent.len() ==> ((#[trigger] sent[i]).0 < frontier <==> i < confirmed_count(
                sent,
                frontier,
            )),
    decreases sent.len(),
{
    if sent.len() > 0 && sent[0].0 < frontier {
        let rest = sent.skip(1);
        assert forall|i: int, j: int| 0 <= i < j < rest.len() implies (#[trigger] rest[i]).0 < (
        #[trigger] rest[j]).0 by {
            assert(sent[i + 1].0 < sent[j + 1].0);
        }
        lemma_confirmed_count(rest, frontier);
        assert forall|i: int| 0 <= i < sent.len() implies ((#[trigger] sent[i]).0 < frontier <==> i
            < confirmed_count(sent, frontier)) by {
            if i > 0 {
                assert(rest[i - 1] == sent[i]);
            }
        }
    } else if sent.len() > 0 {
        assert forall|i: int| 0 <= i < sent.len() implies (#[trigger] sent[i]).0 >= frontier by {
            if i > 0 {
                assert(sent[0].0 < sent[i].0);
            }
        }
    }
}

/// An ack measures the round trip of the newest sample it confirms, from when
/// that was sent, and drops what it confirms and no more. One that confirms
/// nothing changes nothing.
pub proof fn law_acks_measure_the_newest_confirmed(
    p: PeerCtxView,
    frontier: u32,
    now: u64,
    i: int,
)
    requires
        in_send_order(p.sent_times),
        0 <= i < p.sent_times.len(),
    ensures
        ({
            let after = acked(p, frontier, now);
            let (seq, at) = p.sent_times[i];
            let newest = i + 1 == p.sent_times.len() || p.sent_times[i + 1].0 >= frontier;
            &&& after == (PeerCtxView {
                sent_times: after.sent_times,
                rtt_micros: after.rtt_micros,
                ..p
            })
            &&& after.sent_times.contains(p.sent_times[i]) <==> seq >= frontier
            &&& seq < frontier && newest && now >= at ==> after.rtt_micros == Some((now - at) as u64)
            &&& i == 0 && seq >= frontier ==> after == p
        }),
{
    let sent = p.sent_times;
    lemma_confirmed_count(sent, frontier);
    let n = confirmed_count(sent, frontier) as int;
    let after = acked(p, frontier, now);
    let left = sent.skip(n);
    if sent[i].0 >= frontier {
        assert(left[i - n] == sent[i]);
    } else if left.contains(sent[i]) {
        let k = choose|k: int| 0 <= k < left.len() && left[k] == sent[i];
        assert(sent[k + n] == sent[i]);
        assert(sent[i].0 < sent[k + n].0);
    }
    if i == 0 && sent[0].0 >= frontier {
        assert(sent.skip(0) =~= sent);
        assert(after =~= p);
    }
    if i + 1 < sent.len() {
        assert(sent[i].0 < sent[i + 1].0);
    }
}

/// What was sent last is measured by the ack that confirms it, by as long as
/// it took.
pub proof fn law_a_send_is_timed_until_its_ack(p: PeerCtxView, seq: u32, sent: u64, now: u64)
    requires
        in_send_order(p.sent_times),
        p.sent_times.len() > 0 ==> p.sent_times.last().0 < seq,
        sent <= now,
        seq < u32::MAX,
    ensures
        acked(sent_now(p, seq, sent), (seq + 1) as u32, now).rtt_micros == Some(
            (now - sent) as u64,
        ),
        acked(sent_now(p, seq, sent), (seq + 1) as u32, now).sent_times.len() == 0,
        sent_now(p, seq, sent).sent,
{
    let all = p.sent_times.push((seq, sent));
    assert forall|i: int, j: int| 0 <= i < j < all.len() implies (#[trigger] all[i]).0 < (
    #[trigger] all[j]).0 by {
        if j == p.sent_times.len() && i < j - 1 {
            assert(p.sent_times[i].0 < p.sent_times[j - 1].0);
        }
    }
    let q = sent_now(p, seq, sent);
    let s = q.sent_times;
    assert forall|i: int, j: int| 0 <= i < j < s.len() implies (#[trigger] s[i]).0 < (
    #[trigger] s[j]).0 by {
        if all.len() > 256 {
            assert(s[i] == all[i + 1]);
            assert(s[j] == all[j + 1]);
        }
    }
    assert(s.last() == (seq, sent));
    lemma_confirmed_count(s, (seq + 1) as u32);
    assert(s[s.len() - 1].0 < seq + 1);
}

/// A sample stays until so many newer ones were sent: sending drops nothing
/// while there is room, and the oldest one where there is none.
pub proof fn law_sending_drops_only_the_oldest(p: PeerCtxView, seq: u32, now: u64)
    requires
        p.sent_times.len() <= 256,
    ensures
        p.sent_times.len() < 256 ==> sent_now(p, seq, now).sent_times == p.sent_times.push(
            (seq, now),
        ),
        p.sent_times.len() == 256 ==> sent_now(p, seq, now).sent_times == p.sent_times.skip(1).push(
            (seq, now),
        ),
        sent_now(p, seq, now) == (PeerCtxView {
            sent: true,
            sent_times: sent_now(p, seq, now).sent_times,
            ..p
        }),
{
    if p.sent_times.len() == 256 {
        assert(p.sent_times.push((seq, now)).skip(1) =~= p.sent_times.skip(1).push((seq, now)));
    }
}

/// The watchdog blames nobody who was heard of before another: whoever it
/// blames was heard of least recently.
pub proof fn law_the_blamed_was_heard_of_least_recently(
    peers: Seq<PeerCtxView>,
    now: u64,
    slot: int,
    other: int,
)
    requires
        is_quietest(peers, now, slot),
        0 <= other < peers.len(),
        peers[slot].last_heard <= now,
        peers[other].last_heard <= now,
    ensures
        peers[slot].last_heard <= peers[other].last_heard,
{
    assert(crate::session::netplay::silence(peers[other], now)
        <= crate::session::netplay::silence(peers[slot], now));
}

// ---------------------------------------------------------------------
// Ticks per second
// ---------------------------------------------------------------------

/// The ticks counted are those of the trailing second, and all of them.
pub proof fn law_ticks_of_the_last_second_count(times: Seq<u64>, now: u64, i: int)
    requires
        forall|a: int, b: int|
            0 <= a <= b < times.len() ==> (#[trigger] times[a]) <= (#[trigger] times[b]),
        forall|a: int| 0 <= a < times.len() ==> (#[trigger] times[a]) <= now,
        0 <= i < times.len(),
    ensures
        ({
            let gone = times.len() - recent(times, now).len();
            &&& 0 <= gone
            &&& recent(times, now) == times.skip(gone)
            &&& i < gone <==> now - times[i] > 1_000_000
        }),
    decreases times.len(),
{
    if now - times[0] > 1_000_000 {
        let rest = times.skip(1);
        assert forall|a: int, b: int| 0 <= a <= b < rest.len() implies (#[trigger] rest[a]) <= (
        #[trigger] rest[b]) by {
            assert(times[a + 1] <= times[b + 1]);
        }
        assert forall|a: int| 0 <= a < rest.len() implies (#[trigger] rest[a]) <= now by {
            assert(times[a + 1] <= now);
        }
        if rest.len() > 0 {
            let k = if i > 0 {
                i - 1
            } else {
                0
            };
            law_ticks_of_the_last_second_count(rest, now, k);
            let gone = rest.len() - recent(rest, now).len();
            assert(rest.skip(gone) =~= times.skip(gone + 1));
            assert(rest[k] == times[k + 1]);
        } else {
            assert(recent(rest, now) =~= rest);
            assert(times.skip(1) =~= rest);
        }
    } else {
        assert(times.skip(0) =~= times);
        assert(times[0] <= times[i]);
    }
}

// ---------------------------------------------------------------------
// Desyncs
// ---------------------------------------------------------------------

/// The first desync from a position on is a peer whose digest differs from
/// ours at the tick they reported, and no peer before it is; there is none
/// only where no peer's differs.
pub proof fn law_the_first_desync_is_found(
    peers: Seq<PeerCtxView>,
    known: Seq<Option<u32>>,
    from: int,
    i: int,
)
    requires
        known.len() == peers.len(),
        0 <= from <= i < peers.len(),
    ensures
        ({
            let differs = peers[i].checkpoint matches Some(c) && known[i] matches Some(mine) && c.1
                != mine;
            match first_desync(peers, known, from) {
                Some(j) => {
                    &&& from <= j < peers.len()
                    &&& i < j ==> !differs
                    &&& i == j ==> differs
                },
                None => !differs,
            }
        }),
    decreases peers.len() - from,
{
    if from < i {
        law_the_first_desync_is_found(peers, known, from + 1, i);
    } else if from + 1 < peers.len() {
        law_the_first_desync_is_found(peers, known, from + 1, from + 1);
    }
}

/// A checkpoint is judged once: the peers judged have none left, the others
/// keep theirs, and nothing else of anyone changes.
pub proof fn law_checkpoints_are_judged_once(peers: Seq<PeerCtxView>, n: int, i: int)
    requires
        0 <= i < peers.len(),
    ensures
        checkpoints_taken(peers, n).len() == peers.len(),
        checkpoints_taken(peers, n)[i] == (PeerCtxView {
            checkpoint: if i < n {
                None
            } else {
                peers[i].checkpoint
            },
            ..peers[i]
        }),
{
}

// ---------------------------------------------------------------------
// The tick
// ---------------------------------------------------------------------

/// A tick that nothing stops goes from the network to the screen. The engine is
/// fed everything the network brought and advanced with the ten keys the local
/// player holds; what it committed goes out with how far it is and its newest
/// checkpoint; every peer's checkpoint is looked up; the frame and the pace are
/// published, and the statistics say what the engine said. The session then
/// waits for its next tick.
pub proof fn law_a_tick_runs_through(
    d: Seq<NetplayDriver>,
    s: Seq<SharedSession>,
    a: Seq<TickAction>,
    present_delay: u32,
    events: Vec<NetEvent>,
    queue_len: usize,
    skew: i32,
    advance: TickEvent,
    seqs: Vec<u32>,
    known: Vec<Option<u32>>,
    frame: Option<Vec<u8>>,
    pace: u32,
    now: u64,
)
    requires
        d.len() == 7,
        s.len() == 7,
        a.len() == 6,
        d[0].stage is Idle,
        !s[0].quit,
        !s[0].unplug,
        forall|i: int| 0 <= i < events@.len() ==> (#[trigger] events@[i]) is Input,
        queue_len < 180,
        advance is Advanced,
        seqs@.len() == d[0].peers@.len(),
        known@.len() == d[0].peers@.len(),
        forall|i: int|
            0 <= i < d[0].peers@.len() ==> ((#[trigger] d[0].peers@[i]).checkpoint matches Some(c)
                ==> known@[i] matches Some(mine) ==> mine == c.1),
        ticked(d[0], d[1], s[0], s[1], TickEvent::Begin { present_delay, events }, now, a[0]),
        ticked(d[1], d[2], s[1], s[2], TickEvent::Fed { queue_len, skew }, now, a[1]),
        ticked(d[2], d[3], s[2], s[3], advance, now, a[2]),
        ticked(d[3], d[4], s[3], s[4], TickEvent::Sent(seqs), now, a[3]),
        ticked(d[4], d[5], s[4], s[5], TickEvent::Digests(known), now, a[4]),
        ticked(d[5], d[6], s[5], s[6], TickEvent::Presented { frame, pace }, now, a[5]),
    ensures
        a[0] matches TickAction::Feed { present_delay: asked, inputs } && {
            &&& asked == (if s[0].present_delay != present_delay {
                Some(s[0].present_delay)
            } else {
                None
            })
            &&& inputs@.len() == events@.len()
            &&& forall|i: int|
                0 <= i < events@.len() ==> events@[i] == (NetEvent::Input {
                    player: (#[trigger] inputs@[i]).player,
                    keys: inputs@[i].keys as u16,
                    tick_advantage: inputs@[i].tick_advantage,
                }) && inputs@[i].keys <= 0xffff
        },
        a[1] == (TickAction::Advance { keys: s[0].joyflags & 0x3ff }),
        a[2] matches TickAction::Broadcast { input, meta } && {
            &&& input.0 == advance->keys as u16
            &&& meta.tick_advantage == advance->tick_advantage
            &&& advance->checkpoint matches Some(c) ==> meta.checkpoint_tick == c.0
                && meta.checkpoint_digest == c.1
            &&& advance->checkpoint is None ==> meta.checkpoint_tick == 0
        },
        a[3] matches TickAction::Compare { ticks } && ticks@.len() == d[0].peers@.len() && forall|
            i: int,
        |
            0 <= i < ticks@.len() ==> match (#[trigger] ticks@[i]) {
                Some(t) => d[0].peers@[i].checkpoint matches Some(c) && c.0 == t,
                None => d[0].peers@[i].checkpoint is None,
            },
        a[4] == (TickAction::Present { skew }),
        a[5] is Done,
        d[6].stage is Idle,
        !d[6].stop || d[0].stop,
        d[6].local_player == d[0].local_player,
        d[6].local_rom == d[0].local_rom,
        d[6].tick_times@.len() > 0 ==> d[6].tick_times@.last() == now,
        d[6].peers@.len() == d[0].peers@.len(),
        forall|i: int|
            0 <= i < d[6].peers@.len() ==> {
                let p = #[trigger] peers_view(d[6].peers@)[i];
                let was = peers_view(d[0].peers@)[i];
                &&& p.player == was.player
                &&& p.nick == was.nick
                &&& p.rtt_micros == was.rtt_micros
                &&& p.checkpoint is None
                &&& p.sent
                &&& p.sent_times.len() > 0 && p.sent_times.last() == (seqs@[i], now)
            },
        s[6].stats@.queue_len == queue_len,
        s[6].stats@.skew == skew,
        s[6].stats@.rolled_back == advance->rolled_back,
        s[6].stats@.confirmed == advance->confirmed,
        s[6].stats@.frontier == advance->frontier,
        s[6].stats@.slices_peak == advance->slices_peak,
        s[6].stats@.fps_target == pace,
        s[6].stats@.tps == d[6].tick_times@.len() as u32,
        s[6].stats@.peers.len() == d[0].peers@.len(),
        forall|i: int|
            0 <= i < d[0].peers@.len() ==> {
                let p = #[trigger] s[6].stats@.peers[i];
                &&& p.player == d[0].peers@[i].player
                &&& p.nick == d[0].peers@[i].nick@
                &&& p.rtt_micros == d[0].peers@[i].rtt_micros
            },
        s[6].fps_target == pace,
        frame matches Some(f) ==> s[6].vbuf@ == f@,
        frame is None ==> s[6].vbuf@ == s[0].vbuf@ && s[6].vbuf_rev == s[0].vbuf_rev,
        s[6].end == s[0].end,
        s[6].handoff == s[0].handoff,
        s[6].joyflags == s[0].joyflags,
        s[6].view_player == s[0].view_player,
        s[6].present_delay == s[0].present_delay,
{
    let p0 = peers_view(d[0].peers@);
    let dr = drained(p0, events@, now);
    law_every_input_is_handed_on(p0, events@, now);
    if dr.end is Some {
        assert(events@[dr.inputs.len() as int] is Input);
    }
    lemma_draining_keeps(p0, events@, now);
    let p1 = peers_view(d[1].peers@);
    assert(p1.len() == p0.len());
    let p4 = peers_view(d[4].peers@);
    assert forall|i: int| 0 <= i < p0.len() implies !crate::session::netplay::disagrees(
        #[trigger] p4[i],
        known@[i],
    ) by {
        assert(p0[i] == d[0].peers@[i]@);
        assert(p4[i].checkpoint == p1[i].checkpoint);
    }
    if first_desync(p4, known@, 0) is Some {
        let j = first_desync(p4, known@, 0).unwrap();
        law_the_first_desync_is_found(p4, known@, 0, 0);
        law_the_first_desync_is_found(p4, known@, 0, j);
        assert(!crate::session::netplay::disagrees(p4[j], known@[j]));
    }
    let p6 = peers_view(d[6].peers@);
    let ticks = a[3]->ticks@;
    assert forall|i: int| 0 <= i < ticks.len() implies match (#[trigger] ticks[i]) {
        Some(t) => d[0].peers@[i].checkpoint matches Some(c) && c.0 == t,
        None => d[0].peers@[i].checkpoint is None,
    } by {
        assert(p0[i] == d[0].peers@[i]@);
        assert(p4[i].checkpoint == p1[i].checkpoint);
    }
    assert forall|i: int| 0 <= i < d[6].peers@.len() implies {
        let p = #[trigger] p6[i];
        let was = p0[i];
        &&& p.player == was.player
        &&& p.nick == was.nick
        &&& p.rtt_micros == was.rtt_micros
        &&& p.checkpoint is None
        &&& p.sent
        &&& p.sent_times.len() > 0 && p.sent_times.last() == (seqs@[i], now)
    } by {
        assert(p4[i].player == p1[i].player);
        assert(peers_view(d[5].peers@)[i] == p6[i]);
    }
    assert forall|i: int| 0 <= i < d[0].peers@.len() implies {
        let p = #[trigger] s[6].stats@.peers[i];
        &&& p.player == d[0].peers@[i].player
        &&& p.nick == d[0].peers@[i].nick@
        &&& p.rtt_micros == d[0].peers@[i].rtt_micros
    } by {
        assert(p0[i] == d[0].peers@[i]@);
        assert(p6[i].player == p0[i].player);
        assert(s[6].stats@.peers[i] == peer_stat(p6[i]));
    }
    lemma_recent_keeps_the_end(d[0].tick_times@.push(now), now);
}

proof fn lemma_draining_keeps(peers: Seq<PeerCtxView>, events: Seq<NetEvent>, now: u64)
    ensures
        ({
            let after = drained(peers, events, now).peers;
            &&& after.len() == peers.len()
            &&& forall|j: int|
                0 <= j < peers.len() ==> (#[trigger] after[j]) == (PeerCtxView {
                    last_heard: after[j].last_heard,
                    ..peers[j]
                })
        }),
    decreases events.len(),
{
    if events.len() > 0 {
        match events[0] {
            NetEvent::Input { player, .. } => {
                lemma_slot(peers, player, 0);
                lemma_draining_keeps(heard(peers, player, now), events.skip(1), now);
            },
            NetEvent::Gone { .. } => {},
        }
    }
}

proof fn lemma_recent_keeps_the_end(times: Seq<u64>, now: u64)
    ensures
        recent(times, now).len() <= times.len(),
        recent(times, now).len() > 0 ==> recent(times, now).last() == times.last(),
    decreases times.len(),
{
    if times.len() > 0 {
        lemma_recent_keeps_the_end(times.skip(1), now);
    }
}

/// What stops a tick: the local player's quit or pulled cable before anything
/// else, then a peer that is gone, then a queue of unmatched inputs as deep as
/// the watchdog allows, which is blamed on a peer. What ends the session is
/// published at once where the local machine does not survive it, and the
/// machine is captured first where it does.
pub proof fn law_what_stops_a_tick(
    d0: NetplayDriver,
    d1: NetplayDriver,
    s0: SharedSession,
    s1: SharedSession,
    event: TickEvent,
    now: u64,
    a: TickAction,
)
    requires
        ticked(d0, d1, s0, s1, event, now, a),
    ensures
        d0.stage is Idle && event is Begin && s0.quit ==> {
            &&& a is Over
            &&& d1.stage is Over
            &&& d1.stop
            &&& s0.end is None ==> s1.end == Some(SessionEnd::LocalQuit)
            &&& s1.handoff == s0.handoff
        },
        d0.stage is Idle && event is Begin && !s0.quit && s0.unplug ==> {
            &&& a is Capture
            &&& d1.stage == (Stage::Capturing { end: SessionEnd::Unplugged })
            &&& s1 == s0
        },
        d0.stage matches Stage::Feeding { end: Some(end) } && event is Fed && (end is PeerQuit
            || end is PeerDisconnected) ==> {
            &&& a is Capture
            &&& d1.stage matches Stage::Capturing { end: e } && e == d0.stage->Feeding_end.unwrap()
            &&& s1 == s0
        },
        d0.stage matches Stage::Feeding { end: None } && event is Fed && event->Fed_queue_len
            >= 180 ==> {
            &&& a is Capture
            &&& d1.stage matches Stage::Capturing { end: SessionEnd::PeerDisconnected { player } }
                && exists|slot: int|
                    0 <= slot < d0.peers@.len() && (#[trigger] d0.peers@[slot]).player == player
            &&& s1 == s0
        },
        d0.stage matches Stage::Feeding { end: None } && event is Fed && event->Fed_queue_len
            < 180 ==> a is Advance && s1 == s0,
        d0.stage is Advancing && event is Failed ==> {
            &&& a is Over
            &&& d1.stage is Over
            &&& s0.end is None ==> (s1.end matches Some(SessionEnd::Error(t)) && t@
                == "emulation error: "@ + event->Failed_0@)
        },
        d0.stage is Comparing && event is Digests && event->Digests_0@.len() == d0.peers@.len()
            && !(a is Present) ==> {
            &&& a is Capture
            &&& d1.stage matches Stage::Capturing { end: SessionEnd::Desync { tick } } && exists|
                i: int,
            |
                0 <= i < d0.peers@.len() && ((#[trigger] d0.peers@[i]).checkpoint matches Some(c)
                    && event->Digests_0@[i] matches Some(mine) && c.1 != mine && c.0 == tick)
            &&& s1 == s0
        },
{
    if d0.stage matches Stage::Feeding { end: None } && event is Fed && event->Fed_queue_len
        >= 180 {
        let pv = peers_view(d0.peers@);
        let slot = choose|slot: int| #[trigger]
            is_quietest(pv, now, slot) && crate::session::netplay::tick::ending(
                d0,
                d1,
                s0,
                s1,
                SessionEnd::PeerDisconnected { player: pv[slot].player },
                a,
            );
        assert(pv[slot] == d0.peers@[slot]@);
        assert(d0.peers@[slot].player == pv[slot].player);
    }
    if d0.stage is Comparing && event is Digests && event->Digests_0@.len() == d0.peers@.len()
        && !(a is Present) {
        let pv = peers_view(d0.peers@);
        let known = event->Digests_0@;
        let i = first_desync(pv, known, 0).unwrap();
        law_the_first_desync_is_found(pv, known, 0, 0);
        law_the_first_desync_is_found(pv, known, 0, i);
        assert(pv[i] == d0.peers@[i]@);
        assert(d0.peers@[i].checkpoint == pv[i].checkpoint);
    }
}

/// Whether an event is what a stage waits for.
pub open spec fn is_awaited(d: NetplayDriver, event: TickEvent) -> bool {
    match d.stage {
        Stage::Idle => event is Begin,
        Stage::Feeding { .. } => event is Fed,
        Stage::Advancing { .. } => event is Advanced || event is Failed,
        Stage::Sending { .. } => event matches TickEvent::Sent(s) && s@.len() == d.peers@.len(),
        Stage::Comparing { .. } => event matches TickEvent::Digests(k) && k@.len()
            == d.peers@.len(),
        Stage::Presenting { .. } => event is Presented,
        Stage::Capturing { .. } => event is Machine,
        Stage::Over => false,
    }
}

/// What a tick does not wait for changes nothing, and what it waits for is
/// taken up.
pub proof fn law_only_what_is_awaited_counts(
    d0: NetplayDriver,
    d1: NetplayDriver,
    s0: SharedSession,
    s1: SharedSession,
    event: TickEvent,
    now: u64,
    a: TickAction,
)
    requires
        ticked(d0, d1, s0, s1, event, now, a),
    ensures
        !is_awaited(d0, event) ==> d1 == d0 && s1 == s0 && a is Ignored,
        is_awaited(d0, event) ==> !(a is Ignored),
{
}

/// Every desync a tick can see stops it: it goes on to present only where
/// every checkpoint that can be judged agrees.
pub proof fn law_a_tick_stops_at_a_desync(
    d0: NetplayDriver,
    d1: NetplayDriver,
    s0: SharedSession,
    s1: SharedSession,
    known: Vec<Option<u32>>,
    now: u64,
    a: TickAction,
    i: int,
)
    requires
        d0.stage is Comparing,
        known@.len() == d0.peers@.len(),
        ticked(d0, d1, s0, s1, TickEvent::Digests(known), now, a),
        0 <= i < d0.peers@.len(),
        d0.peers@[i].checkpoint is Some,
        known@[i] is Some,
        d0.peers@[i].checkpoint.unwrap().1 != known@[i].unwrap(),
    ensures
        a is Capture,
        d1.stage is Capturing,
{
    let pv = peers_view(d0.peers@);
    assert(pv[i] == d0.peers@[i]@);
    law_the_first_desync_is_found(pv, known@, 0, i);
}

// ---------------------------------------------------------------------
// The end
// ---------------------------------------------------------------------

/// How a session is torn down. The heartbeats stop, the first end published
/// stays, and nobody is left with a pace. Peers are told exactly where the
/// local player quit or pulled the cable. The machine is handed on exactly where
/// it survives and was captured: what was captured of it, on the session's own
/// cart, clock and peripheral.
pub proof fn law_how_a_session_is_torn_down(
    d0: NetplayDriver,
    d1: NetplayDriver,
    s0: SharedSession,
    s1: SharedSession,
    end: SessionEnd,
    captured: Option<Captured>,
    announce: Option<Vec<u8>>,
)
    requires
        finished(d0, d1, s0, s1, end, captured, announce),
    ensures
        d1.stop,
        s1.fps_target == 0,
        s0.end is None ==> s1.end == Some(end),
        s0.end is Some ==> s1.end == s0.end,
        announce is Some <==> (end == SessionEnd::LocalQuit || end == SessionEnd::Unplugged),
        announce matches Some(b) ==> b@ == control_bytes(PeerControlView::Quit),
        end == SessionEnd::LocalQuit || end is Error || captured is None ==> s1.handoff
            == s0.handoff && d1.local_rom == d0.local_rom,
        !(end is LocalQuit) && !(end is Error) ==> (captured matches Some(c) ==> (s1.handoff
            matches Some(h) && {
            &&& h.rom == d0.local_rom
            &&& h.state == c.state
            &&& h.save == c.save
            &&& h.adapter == c.adapter
            &&& h.rtc_unix_micros == d0.clock_unix_micros
            &&& h.link == d0.link
        })),
        s1.vbuf == s0.vbuf,
        s1.stats == s0.stats,
{
}

// ---------------------------------------------------------------------
// The start
// ---------------------------------------------------------------------

/// Two players who start from the same bundle build the same link: side by
/// side the same cart, state and save, and the same clock.
pub proof fn law_every_player_builds_the_same_link(
    a: NetplaySession,
    b: NetplaySession,
    args_a: NetplayArgs,
    args_b: NetplayArgs,
    edges_a: Seq<usize>,
    edges_b: Seq<usize>,
    now_a: u64,
    now_b: u64,
    i: int,
)
    requires
        started(a, args_a, edges_a, now_a),
        started(b, args_b, edges_b, now_b),
        args_a.bundle.players@.len() == args_b.bundle.players@.len(),
        forall|k: int|
            0 <= k < args_a.bundle.players@.len() ==> (#[trigger] args_a.bundle.boots@[k])@
                == args_b.bundle.boots@[k]@ && args_a.roms@[k]@ == args_b.roms@[k]@,
        0 <= i < args_a.bundle.players@.len(),
    ensures
        a.sides@.len() == b.sides@.len(),
        a.driver.clock_unix_micros == b.driver.clock_unix_micros,
        a.sides@[i].rom@ == b.sides@[i].rom@,
        a.sides@[i].state@ == b.sides@[i].state@,
        a.sides@[i].save is Some <==> b.sides@[i].save is Some,
        a.sides@[i].save is Some ==> a.sides@[i].save.unwrap()@ == b.sides@[i].save.unwrap()@,
{
    assert(args_a.bundle.boots@[0]@ == args_b.bundle.boots@[0]@);
    assert(args_a.bundle.boots@[i]@ == args_b.bundle.boots@[i]@);
    assert(crate::session::netplay::side_of(a.sides@[i], args_a.roms@[i]@, args_a.bundle.boots@[i]@));
    assert(crate::session::netplay::side_of(b.sides@[i], args_b.roms@[i]@, args_b.bundle.boots@[i]@));
}

/// A session starts from what every player sent: each side runs that player's
/// cart from their state and save, and the clock is that of the first player.
pub proof fn law_sides_start_from_their_captures(
    s: NetplaySession,
    args: NetplayArgs,
    edges: Seq<usize>,
    now: u64,
    i: int,
)
    requires
        started(s, args, edges, now),
        0 <= i < args.bundle.players@.len(),
    ensures
        unpacked_blob(args.bundle.boots@[i]@) matches Some(b) && {
            &&& s.sides@[i].rom@ == args.roms@[i]@
            &&& s.sides@[i].state@ == b.state
            &&& s.sides@[i].save matches Some(save) ==> b.save == Some(save@)
            &&& s.sides@[i].save is None ==> b.save is None
            &&& i == 0 ==> s.driver.clock_unix_micros == b.clock_unix_micros
        },
        s.driver.local_rom@ == args.roms@[args.bundle.local_player as int]@,
        s.shared.view_player == args.bundle.local_player,
        s.shared.present_delay == args.present_delay,
        s.descriptor.nicks@[i]@ == args.bundle.players@[i].nick@,
        s.driver.stage is Idle,
{
    assert(crate::session::netplay::side_of(s.sides@[i], args.roms@[i]@, args.bundle.boots@[i]@));
}

} // verus!
