//! One tick of a netplay session, from what the network brought to what is
//! presented. The engine and the streams are the host's: a tick asks for one
//! thing at a time, and goes on with what comes back.
use vstd::prelude::*;
use crate::net::protocol::{Input, Meta};
use crate::session::local::JOYPAD_MASK;
use crate::session::netplay::{
    checkpoints_taken, drained, finished, first_desync, heard, is_quietest, meta_of, peers_view, sent_now,
    slot_from, tick_closed, Captured, NetEvent, NetplayDriver, PeerCtxView, RemoteInput, TickReport,
};
use crate::session::{end_unplugs, SessionEnd, SharedSession, UNPLUG_QUEUE_LENGTH};

verus! {

/// How far a tick is.
#[derive(Debug)]
pub enum Stage {
    /// Between ticks.
    Idle,
    /// The engine takes in what the network brought. If a peer is gone, the
    /// session ends then.
    Feeding { end: Option<SessionEnd> },
    /// The engine advances.
    Advancing { queue_len: usize, skew: i32 },
    /// Every peer's stream takes the tick.
    Sending { report: TickReport },
    /// The peers' checkpoints are held against the engine's.
    Comparing { report: TickReport },
    /// The local side is presented.
    Presenting { report: TickReport },
    /// The local machine is captured, to go on alone.
    Capturing { end: SessionEnd },
    /// The session is over.
    Over,
}

/// What a tick goes on with.
#[derive(Debug)]
pub enum TickEvent {
    /// A frame is due: the engine's present delay, and what the network brought.
    Begin { present_delay: u32, events: Vec<NetEvent> },
    /// The engine took everything in: its unmatched local inputs, and its skew.
    Fed { queue_len: usize, skew: i32 },
    /// The engine advanced: the keys it committed, how far it is, its newest
    /// settled checkpoint, and what it says of the advance.
    Advanced {
        keys: u32,
        tick_advantage: i16,
        checkpoint: Option<(u32, u32)>,
        rolled_back: u32,
        confirmed: u32,
        frontier: u32,
        slices_peak: u32,
    },
    /// The engine could not advance.
    Failed(String),
    /// Each peer's stream took the tick, under these sequence numbers.
    Sent(Vec<u32>),
    /// Our digests at the ticks asked for, where we still have them.
    Digests(Vec<Option<u32>>),
    /// The local side's frame, and the bits of the pace the throttler asks for.
    Presented { frame: Option<Vec<u8>>, pace: u32 },
    /// The local machine, if it could be captured.
    Machine(Option<Captured>),
}

/// What a tick asks for.
#[derive(Debug)]
pub enum TickAction {
    /// Give the engine this present delay, if any, and these inputs, in order.
    Feed { present_delay: Option<u32>, inputs: Vec<RemoteInput> },
    /// Advance the engine with these local keys.
    Advance { keys: u32 },
    /// Push this on every peer's stream, and ship the stream's whole redundancy
    /// window.
    Broadcast { input: Input, meta: Meta },
    /// Look up our digest at each peer's checkpoint, if it reported one.
    Compare { ticks: Vec<Option<u32>> },
    /// Discard the newly confirmed ticks, take the local side's frame, and step
    /// the throttler with this skew.
    Present { skew: i32 },
    /// The tick is done.
    Done,
    /// Capture the local machine as it stands.
    Capture,
    /// The session is over: send this on every control channel, if anything.
    Over { announce: Option<Vec<u8>> },
    /// That was not what the tick waits for.
    Ignored,
}

/// Whether the session's end was taken up: the local machine is captured first
/// where it survives.
pub open spec fn ending(
    d0: NetplayDriver,
    d1: NetplayDriver,
    s0: SharedSession,
    s1: SharedSession,
    end: SessionEnd,
    a: TickAction,
) -> bool {
    if end_unplugs(end) {
        &&& d1 == (NetplayDriver { stage: Stage::Capturing { end }, ..d0 })
        &&& s1 == s0
        &&& a == TickAction::Capture
    } else {
        &&& a matches TickAction::Over { announce }
        &&& finished(
            NetplayDriver { stage: Stage::Over, ..d0 },
            d1,
            s0,
            s1,
            end,
            None,
            announce,
        )
    }
}

/// Every peer, with the tick sent to them.
pub open spec fn all_sent(
    peers: Seq<PeerCtxView>,
    seqs: Seq<u32>,
    now: u64,
) -> Seq<PeerCtxView> {
    Seq::new(peers.len(), |i: int| sent_now(peers[i], seqs[i], now))
}

/// The tick of each peer's checkpoint.
pub open spec fn checkpoint_ticks(peers: Seq<PeerCtxView>) -> Seq<Option<u32>> {
    peers.map_values(
        |p: PeerCtxView|
            match p.checkpoint {
                Some(c) => Some(c.0),
                None => None,
            },
    )
}

/// The first thing a tick does: what the UI asks for ends the session, else the
/// network is drained into the engine.
pub open spec fn begun(
    d0: NetplayDriver,
    d1: NetplayDriver,
    s0: SharedSession,
    s1: SharedSession,
    present_delay: u32,
    events: Seq<NetEvent>,
    now: u64,
    a: TickAction,
) -> bool {
    if s0.quit {
        ending(d0, d1, s0, s1, SessionEnd::LocalQuit, a)
    } else if s0.unplug {
        ending(d0, d1, s0, s1, SessionEnd::Unplugged, a)
    } else {
        let d = drained(peers_view(d0.peers@), events, now);
        &&& s1 == s0
        &&& peers_view(d1.peers@) == d.peers
        &&& d1 == (NetplayDriver {
            peers: d1.peers,
            stage: Stage::Feeding { end: d.end },
            ..d0
        })
        &&& a matches TickAction::Feed { present_delay: asked, inputs }
        &&& inputs@ == d.inputs
        &&& asked == (if s0.present_delay != present_delay {
            Some(s0.present_delay)
        } else {
            None::<u32>
        })
    }
}

/// Whether an event trips the queue watchdog, which blames a peer.
pub open spec fn trips(stage: Stage, event: TickEvent) -> bool {
    stage matches Stage::Feeding { end } && end is None && (event matches TickEvent::Fed {
        queue_len,
        ..
    } && queue_len >= UNPLUG_QUEUE_LENGTH)
}

/// Once the engine is fed, the session ends if a peer is gone or the queue
/// watchdog trips, else the engine advances with the local player's keys.
pub open spec fn fed(
    d0: NetplayDriver,
    d1: NetplayDriver,
    s0: SharedSession,
    s1: SharedSession,
    end: Option<SessionEnd>,
    queue_len: usize,
    skew: i32,
    now: u64,
    a: TickAction,
) -> bool {
    let peers = peers_view(d0.peers@);
    match end {
        Some(end) => ending(d0, d1, s0, s1, end, a),
        None => if queue_len >= UNPLUG_QUEUE_LENGTH {
            exists|slot: int| #[trigger]
                is_quietest(peers, now, slot) && ending(
                    d0,
                    d1,
                    s0,
                    s1,
                    SessionEnd::PeerDisconnected { player: peers[slot].player },
                    a,
                )
        } else {
            &&& s1 == s0
            &&& d1 == (NetplayDriver { stage: Stage::Advancing { queue_len, skew }, ..d0 })
            &&& a == (TickAction::Advance { keys: s0.joyflags & JOYPAD_MASK })
        },
    }
}

/// Once the digests are known, a peer that disagrees ends the session, else the
/// local side is presented.
pub open spec fn compared(
    d0: NetplayDriver,
    d1: NetplayDriver,
    s0: SharedSession,
    s1: SharedSession,
    report: TickReport,
    known: Seq<Option<u32>>,
    a: TickAction,
) -> bool {
    let peers = peers_view(d0.peers@);
    match first_desync(peers, known, 0) {
        Some(i) => {
            &&& peers_view(d1.peers@) == checkpoints_taken(peers, i + 1)
            &&& ending(
                NetplayDriver { peers: d1.peers, ..d0 },
                d1,
                s0,
                s1,
                SessionEnd::Desync { tick: peers[i].checkpoint.unwrap().0 },
                a,
            )
        },
        None => {
            &&& s1 == s0
            &&& peers_view(d1.peers@) == checkpoints_taken(peers, peers.len() as int)
            &&& d1 == (NetplayDriver {
                peers: d1.peers,
                stage: Stage::Presenting { report },
                ..d0
            })
            &&& a == (TickAction::Present { skew: report.skew })
        },
    }
}

/// Whether an event takes a tick from one stage to the next.
pub open spec fn ticked(
    d0: NetplayDriver,
    d1: NetplayDriver,
    s0: SharedSession,
    s1: SharedSession,
    event: TickEvent,
    now: u64,
    a: TickAction,
) -> bool {
    match (d0.stage, event) {
        (Stage::Idle, TickEvent::Begin { present_delay, events }) => begun(
            d0,
            d1,
            s0,
            s1,
            present_delay,
            events@,
            now,
            a,
        ),
        (Stage::Feeding { end }, TickEvent::Fed { queue_len, skew }) => fed(
            d0,
            d1,
            s0,
            s1,
            end,
            queue_len,
            skew,
            now,
            a,
        ),
        (
            Stage::Advancing { queue_len, skew },
            TickEvent::Advanced {
                keys,
                tick_advantage,
                checkpoint,
                rolled_back,
                confirmed,
                frontier,
                slices_peak,
            },
        ) => {
            &&& s1 == s0
            &&& d1 == (NetplayDriver {
                stage: Stage::Sending {
                    report: TickReport {
                        queue_len,
                        skew,
                        rolled_back,
                        confirmed,
                        frontier,
                        slices_peak,
                    },
                },
                ..d0
            })
            &&& a == (TickAction::Broadcast {
                input: Input(keys as u16),
                meta: meta_of(tick_advantage, checkpoint),
            })
        },
        (Stage::Advancing { .. }, TickEvent::Failed(e)) => exists|t: String|
            t@ == "emulation error: "@ + e@ && #[trigger] ending(
                d0,
                d1,
                s0,
                s1,
                SessionEnd::Error(t),
                a,
            ),
        (Stage::Sending { report }, TickEvent::Sent(seqs)) if seqs@.len() == d0.peers@.len() => {
            let peers = all_sent(peers_view(d0.peers@), seqs@, now);
            &&& s1 == s0
            &&& peers_view(d1.peers@) == peers
            &&& d1 == (NetplayDriver {
                peers: d1.peers,
                stage: Stage::Comparing { report },
                ..d0
            })
            &&& a matches TickAction::Compare { ticks } && ticks@ == checkpoint_ticks(peers)
        },
        (Stage::Comparing { report }, TickEvent::Digests(known)) if known@.len()
            == d0.peers@.len() => compared(d0, d1, s0, s1, report, known@, a),
        (Stage::Presenting { report }, TickEvent::Presented { frame, pace }) => {
            &&& tick_closed(
                NetplayDriver { stage: Stage::Idle, ..d0 },
                d1,
                s0,
                s1,
                frame,
                pace,
                report,
                now,
            )
            &&& a == TickAction::Done
        },
        (Stage::Capturing { end }, TickEvent::Machine(captured)) => {
            &&& a matches TickAction::Over { announce }
            &&& finished(
                NetplayDriver { stage: Stage::Over, ..d0 },
                d1,
                s0,
                s1,
                end,
                captured,
                announce,
            )
        },
        _ => d1 == d0 && s1 == s0 && a == TickAction::Ignored,
    }
}

proof fn lemma_slot_is_one(peers: Seq<PeerCtxView>, player: usize, i: int)
    requires
        0 <= i,
    ensures
        slot_from(peers, player, i) matches Some(j) ==> 0 <= j < peers.len(),
    decreases peers.len() - i,
{
    if i < peers.len() {
        lemma_slot_is_one(peers, player, i + 1);
    }
}

proof fn lemma_drained_len(peers: Seq<PeerCtxView>, events: Seq<NetEvent>, now: u64)
    ensures
        drained(peers, events, now).peers.len() == peers.len(),
    decreases events.len(),
{
    if events.len() > 0 {
        match events[0] {
            NetEvent::Input { player, .. } => {
                lemma_slot_is_one(peers, player, 0);
                lemma_drained_len(heard(peers, player, now), events.skip(1), now);
            },
            NetEvent::Gone { .. } => {},
        }
    }
}

impl NetplayDriver {
    /// The session is over, but for the local machine where it survives.
    fn end_with(&mut self, shared: &mut SharedSession, end: SessionEnd) -> (a: TickAction)
        ensures
            ending(*old(self), *final(self), *old(shared), *final(shared), end, a),
    {
        if end.unplugs() {
            self.stage = Stage::Capturing { end };
            TickAction::Capture
        } else {
            self.stage = Stage::Over;
            let announce = self.finish(shared, end, None);
            TickAction::Over { announce }
        }
    }

    fn begin(
        &mut self,
        shared: &mut SharedSession,
        present_delay: u32,
        events: Vec<NetEvent>,
        now: u64,
    ) -> (a: TickAction)
        ensures
            begun(
                *old(self),
                *final(self),
                *old(shared),
                *final(shared),
                present_delay,
                events@,
                now,
                a,
            ),
    {
        if shared.quit {
            self.end_with(shared, SessionEnd::LocalQuit)
        } else if shared.unplug {
            self.end_with(shared, SessionEnd::Unplugged)
        } else {
            let o = self.open_tick(shared, present_delay, &events, now);
            self.stage = Stage::Feeding { end: o.end };
            TickAction::Feed { present_delay: o.present_delay, inputs: o.inputs }
        }
    }

    fn feed(
        &mut self,
        shared: &mut SharedSession,
        end: Option<SessionEnd>,
        queue_len: usize,
        skew: i32,
        now: u64,
    ) -> (a: TickAction)
        requires
            end is None && queue_len >= UNPLUG_QUEUE_LENGTH ==> old(self).peers@.len() > 0,
        ensures
            fed(
                *old(self),
                *final(self),
                *old(shared),
                *final(shared),
                end,
                queue_len,
                skew,
                now,
                a,
            ),
    {
        match end {
            Some(end) => self.end_with(shared, end),
            None => match self.watch(queue_len, now) {
                Some(end) => self.end_with(shared, end),
                None => {
                    self.stage = Stage::Advancing { queue_len, skew };
                    TickAction::Advance { keys: self.keys(shared) }
                },
            },
        }
    }

    /// Every peer's stream took the tick.
    fn note_all_sent(&mut self, seqs: &Vec<u32>, now: u64)
        requires
            seqs@.len() == old(self).peers@.len(),
        ensures
            peers_view(final(self).peers@) == all_sent(peers_view(old(self).peers@), seqs@, now),
            *final(self) == (NetplayDriver { peers: final(self).peers, ..*old(self) }),
    {
        let ghost was = peers_view(self.peers@);
        let mut i: usize = 0;
        while i < self.peers.len()
            invariant
                i <= self.peers@.len(),
                self.peers@.len() == was.len() == seqs@.len(),
                was == peers_view(old(self).peers@),
                forall|k: int|
                    0 <= k < was.len() ==> (#[trigger] self.peers@[k])@ == if k < i {
                        sent_now(was[k], seqs@[k], now)
                    } else {
                        was[k]
                    },
                *self == (NetplayDriver { peers: self.peers, ..*old(self) }),
            decreases self.peers@.len() - i,
        {
            let ghost before = self.peers@;
            assert(before[i as int]@ == was[i as int]);
            self.peers[i].note_sent(seqs[i], now);
            assert forall|k: int| 0 <= k < was.len() implies (#[trigger] self.peers@[k])@ == if k
                < i + 1 {
                sent_now(was[k], seqs@[k], now)
            } else {
                was[k]
            } by {
                if k != i {
                    assert(self.peers@[k] == before[k]);
                }
            }
            i = i + 1;
        }
        assert(peers_view(self.peers@) =~= all_sent(was, seqs@, now));
    }

    /// The tick of each peer's checkpoint.
    fn reported_ticks(&self) -> (ticks: Vec<Option<u32>>)
        ensures
            ticks@ == checkpoint_ticks(peers_view(self.peers@)),
    {
        let mut ticks: Vec<Option<u32>> = Vec::new();
        let mut i: usize = 0;
        while i < self.peers.len()
            invariant
                i <= self.peers@.len(),
                ticks@ == checkpoint_ticks(peers_view(self.peers@)).take(i as int),
            decreases self.peers@.len() - i,
        {
            let tick: Option<u32> = match self.peers[i].checkpoint {
                Some(c) => Some(c.0),
                None => None,
            };
            let ghost all = checkpoint_ticks(peers_view(self.peers@));
            ticks.push(tick);
            assert(all.take(i + 1) =~= all.take(i as int).push(all[i as int]));
            i = i + 1;
        }
        assert(ticks@ =~= checkpoint_ticks(peers_view(self.peers@)));
        ticks
    }

    fn compare(
        &mut self,
        shared: &mut SharedSession,
        report: TickReport,
        known: &Vec<Option<u32>>,
    ) -> (a: TickAction)
        requires
            known@.len() == old(self).peers@.len(),
        ensures
            compared(
                *old(self),
                *final(self),
                *old(shared),
                *final(shared),
                report,
                known@,
                a,
            ),
    {
        match self.check_digests(known) {
            Some(end) => self.end_with(shared, end),
            None => {
                self.stage = Stage::Presenting { report };
                TickAction::Present { skew: report.skew }
            },
        }
    }

    /// Go on with a tick. Nothing but what the tick waits for moves it.
    pub fn tick(
        &mut self,
        shared: &mut SharedSession,
        event: TickEvent,
        now: u64,
    ) -> (a: TickAction)
        requires
            trips(old(self).stage, event) ==> old(self).peers@.len() > 0,
        ensures
            ticked(*old(self), *final(self), *old(shared), *final(shared), event, now, a),
            final(self).peers@.len() == old(self).peers@.len(),
    {
        let mut stage = Stage::Over;
        std::mem::swap(&mut stage, &mut self.stage);
        match (stage, event) {
            (Stage::Idle, TickEvent::Begin { present_delay, events }) => {
                self.stage = Stage::Idle;
                let a = self.begin(shared, present_delay, events, now);
                proof {
                    lemma_drained_len(peers_view(old(self).peers@), events@, now);
                }
                assert(peers_view(self.peers@).len() == old(self).peers@.len());
                a
            },
            (Stage::Feeding { end }, TickEvent::Fed { queue_len, skew }) => {
                let a = self.feed(shared, end, queue_len, skew, now);
                assert(self.peers == old(self).peers);
                a
            },
            (
                Stage::Advancing { queue_len, skew },
                TickEvent::Advanced {
                    keys,
                    tick_advantage,
                    checkpoint,
                    rolled_back,
                    confirmed,
                    frontier,
                    slices_peak,
                },
            ) => {
                self.stage = Stage::Sending {
                    report: TickReport {
                        queue_len,
                        skew,
                        rolled_back,
                        confirmed,
                        frontier,
                        slices_peak,
                    },
                };
                let (input, meta) = self.outgoing(keys, tick_advantage, checkpoint);
                TickAction::Broadcast { input, meta }
            },
            (Stage::Advancing { .. }, TickEvent::Failed(e)) => {
                let mut text = "emulation error: ".to_owned();
                text.append(e.as_str());
                let a = self.end_with(shared, SessionEnd::Error(text));
                assert(ending(*old(self), *self, *old(shared), *shared, SessionEnd::Error(text), a));
                a
            },
            (Stage::Sending { report }, TickEvent::Sent(seqs)) => {
                if seqs.len() != self.peers.len() {
                    self.stage = Stage::Sending { report };
                    return TickAction::Ignored;
                }
                self.note_all_sent(&seqs, now);
                assert(peers_view(self.peers@).len() == old(self).peers@.len());
                self.stage = Stage::Comparing { report };
                TickAction::Compare { ticks: self.reported_ticks() }
            },
            (Stage::Comparing { report }, TickEvent::Digests(known)) => {
                if known.len() != self.peers.len() {
                    self.stage = Stage::Comparing { report };
                    return TickAction::Ignored;
                }
                let a = self.compare(shared, report, &known);
                assert(peers_view(self.peers@).len() == old(self).peers@.len());
                a
            },
            (Stage::Presenting { report }, TickEvent::Presented { frame, pace }) => {
                self.stage = Stage::Idle;
                self.close_tick(shared, frame, pace, report, now);
                TickAction::Done
            },
            (Stage::Capturing { end }, TickEvent::Machine(captured)) => {
                self.stage = Stage::Over;
                let announce = self.finish(shared, end, captured);
                TickAction::Over { announce }
            },
            (stage, _) => {
                self.stage = stage;
                TickAction::Ignored
            },
        }
    }
}

// ---------------------------------------------------------------------
// Laws
// ---------------------------------------------------------------------

/// A session that is over stays as it is, whatever is reported.
pub proof fn law_the_over_stay_over(
    d0: NetplayDriver,
    d1: NetplayDriver,
    s0: SharedSession,
    s1: SharedSession,
    event: TickEvent,
    now: u64,
    a: TickAction,
)
    requires
        d0.stage is Over,
        ticked(d0, d1, s0, s1, event, now, a),
    ensures
        d1 == d0,
        s1 == s0,
        a is Ignored,
{
}

/// A machine that survives its session is captured before the session is over:
/// an end that unplugs is published only with what the capture brought.
pub proof fn law_surviving_machines_are_captured_first(
    d0: NetplayDriver,
    d1: NetplayDriver,
    s0: SharedSession,
    s1: SharedSession,
    event: TickEvent,
    now: u64,
    a: TickAction,
    end: SessionEnd,
)
    requires
        ticked(d0, d1, s0, s1, event, now, a),
        s0.end is None,
        s1.end == Some(end),
        end_unplugs(end),
    ensures
        d0.stage == (Stage::Capturing { end }),
        event is Machine,
        a is Over,
{
}

/// No frame is presented past a desync: a tick comes to presenting only where
/// no peer's digest differs from ours.
pub proof fn law_desynced_frames_are_not_presented(
    d0: NetplayDriver,
    d1: NetplayDriver,
    s0: SharedSession,
    s1: SharedSession,
    event: TickEvent,
    now: u64,
    a: TickAction,
)
    requires
        ticked(d0, d1, s0, s1, event, now, a),
        a is Present,
    ensures
        d0.stage is Comparing,
        event matches TickEvent::Digests(known) && known@.len() == d0.peers@.len()
            && first_desync(peers_view(d0.peers@), known@, 0) is None,
{
}

} // verus!
