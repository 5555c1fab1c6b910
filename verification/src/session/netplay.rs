//! The netplay session: a rollback engine ticked by the runtime pump, with
//! per-peer streams over the mesh's unreliable channels. The tick drains the
//! network, minds the queue watchdog, advances, broadcasts the redundancy
//! window and compares digests; the engine and the streams are the host's, and
//! what to do with what they say is decided here.
use vstd::prelude::*;
use std::collections::VecDeque;
use crate::net::lobby::SessionBundle;
use crate::net::protocol::{
    control_bytes, read_control, unpacked_blob, BootBlob, Input, Meta, PeerControl, PeerControlView,
};
use crate::session::local::JOYPAD_MASK;
use crate::session::netplay::tick::Stage;
use crate::session::{
    end_unplugs, Handoff, LinkKind, PeerStat, PeerStatView, SessionDescriptor, SessionEnd,
    SessionKind, SharedSession, Stats, StatsView, UNPLUG_QUEUE_LENGTH,
};

pub mod laws;
pub mod tick;

verus! {

/// Cadence of the per-peer heartbeat: resend the redundancy window on any
/// interval where the emulator sent nothing, so acks and recovery keep flowing
/// while a peer catches up.
pub const HEARTBEAT_MS: u32 = 16;

/// How many (sequence, send time) samples to keep for ack-derived round trips.
pub const MAX_RTT_SAMPLES: usize = 256;

/// The window over which ticks are counted, in microseconds.
pub const TPS_WINDOW_MICROS: u64 = 1_000_000;

/// Why a peer is gone.
#[derive(Debug, Clone, Copy, PartialEq, Eq, Structural)]
pub enum GoneReason {
    Quit,
    Disconnected,
    FellBehind,
}

/// What a peer's transport reports.
#[derive(Debug, Clone, Copy, PartialEq, Eq, Structural)]
pub enum NetEvent {
    Input { player: usize, keys: u16, tick_advantage: i16 },
    Gone { player: usize, reason: GoneReason },
}

/// An input to hand to the rollback engine.
#[derive(Debug, Clone, Copy, PartialEq, Eq, Structural)]
pub struct RemoteInput {
    pub player: usize,
    pub keys: u32,
    pub tick_advantage: i16,
}

// ---------------------------------------------------------------------
// Peers
// ---------------------------------------------------------------------

/// What the session keeps of one peer. Times are microseconds on one clock.
#[derive(Debug)]
pub struct PeerCtx {
    pub player: usize,
    pub nick: String,
    /// What was sent when, oldest first.
    pub sent_times: VecDeque<(u32, u64)>,
    /// Set on every real send; the heartbeat clears it and only resends on an
    /// interval that stayed false.
    pub sent: bool,
    pub rtt_micros: Option<u64>,
    /// Freshest checkpoint the peer reported, taken by the tick.
    pub checkpoint: Option<(u32, u32)>,
    /// When an input last came from them: consulted only when the queue
    /// watchdog trips, to name the peer that went silent.
    pub last_heard: u64,
}

/// What a [`PeerCtx`] says.
#[verifier::ext_equal]
pub struct PeerCtxView {
    pub player: usize,
    pub nick: Seq<char>,
    pub sent_times: Seq<(u32, u64)>,
    pub sent: bool,
    pub rtt_micros: Option<u64>,
    pub checkpoint: Option<(u32, u32)>,
    pub last_heard: u64,
}

impl View for PeerCtx {
    type V = PeerCtxView;

    open spec fn view(&self) -> PeerCtxView {
        PeerCtxView {
            player: self.player,
            nick: self.nick@,
            sent_times: self.sent_times@,
            sent: self.sent,
            rtt_micros: self.rtt_micros,
            checkpoint: self.checkpoint,
            last_heard: self.last_heard,
        }
    }
}

/// What a list of peers says.
pub open spec fn peers_view(p: Seq<PeerCtx>) -> Seq<PeerCtxView> {
    p.map_values(|p: PeerCtx| p@)
}

/// How long ago something was, or 0 where the clock says it is yet to come.
pub open spec fn since(now: u64, at: u64) -> u64 {
    if now > at {
        (now - at) as u64
    } else {
        0
    }
}

fn elapsed(now: u64, at: u64) -> (d: u64)
    ensures
        d == since(now, at),
{
    if now > at {
        now - at
    } else {
        0
    }
}

// ---------------------------------------------------------------------
// What comes in
// ---------------------------------------------------------------------

/// How many of the oldest samples are below a frontier.
pub open spec fn confirmed_count(sent_times: Seq<(u32, u64)>, frontier: u32) -> nat
    decreases sent_times.len(),
{
    if sent_times.len() > 0 && sent_times[0].0 < frontier {
        1 + confirmed_count(sent_times.skip(1), frontier)
    } else {
        0
    }
}

/// A peer once their frontier has passed: the samples it confirms are dropped,
/// and the freshest of them dates the round trip.
pub open spec fn acked(p: PeerCtxView, frontier: u32, now: u64) -> PeerCtxView {
    let n = confirmed_count(p.sent_times, frontier);
    PeerCtxView {
        sent_times: p.sent_times.skip(n as int),
        rtt_micros: if n > 0 {
            Some(since(now, p.sent_times[n - 1].1))
        } else {
            p.rtt_micros
        },
        ..p
    }
}

/// A peer after a delivery: a checkpoint of tick 0 is no checkpoint.
pub open spec fn told(p: PeerCtxView, meta: Meta) -> PeerCtxView {
    if meta.checkpoint_tick > 0 {
        PeerCtxView { checkpoint: Some((meta.checkpoint_tick, meta.checkpoint_digest)), ..p }
    } else {
        p
    }
}

/// What a delivery reports: its inputs in order, all with the same advantage.
pub open spec fn input_events(player: usize, meta: Meta, entries: Seq<Input>) -> Seq<NetEvent> {
    entries.map_values(
        |i: Input| NetEvent::Input { player, keys: i.0, tick_advantage: meta.tick_advantage },
    )
}

/// What the in-stream made of a frame.
#[derive(Debug)]
pub enum Delivery {
    Window { meta: Meta, entries: Vec<Input> },
    /// The peer fell further behind than the stream can bridge.
    HorizonExceeded,
}

impl PeerCtx {
    pub fn new(player: usize, nick: String, now: u64) -> (p: PeerCtx)
        ensures
            p@ == new_peer(player, nick@, now),
    {
        let sent_times: VecDeque<(u32, u64)> = VecDeque::new();
        assert(sent_times@ =~= Seq::empty());
        PeerCtx {
            player,
            nick,
            sent_times,
            sent: false,
            rtt_micros: None,
            checkpoint: None,
            last_heard: now,
        }
    }

    /// A frame came, whose ack puts the peer's frontier at `frontier`: what it
    /// reports. `false` where the peer is lost and nothing more is to be read.
    pub fn on_frame(&mut self, frontier: u32, now: u64, delivery: Delivery) -> (r: (
        Vec<NetEvent>,
        bool,
    ))
        ensures
            match delivery {
                Delivery::HorizonExceeded => {
                    &&& final(self)@ == acked(old(self)@, frontier, now)
                    &&& r.0@ == seq![
                        NetEvent::Gone {
                            player: old(self)@.player,
                            reason: GoneReason::FellBehind,
                        },
                    ]
                    &&& !r.1
                },
                Delivery::Window { meta, entries } => {
                    &&& final(self)@ == told(acked(old(self)@, frontier, now), meta)
                    &&& r.0@ == input_events(old(self)@.player, meta, entries@)
                    &&& r.1
                },
            },
    {
        let ghost was = self@;
        let ghost all = self.sent_times@;
        let ghost n = confirmed_count(all, frontier);
        let ghost mut k: nat = 0;
        let mut newest: Option<u64> = None;
        proof {
            assert(all.skip(0) =~= all);
        }
        while self.sent_times.len() > 0 && self.sent_times[0].0 < frontier
            invariant
                k <= all.len(),
                self.sent_times@ == all.skip(k as int),
                k + confirmed_count(self.sent_times@, frontier) == n,
                newest == (if k > 0 {
                    Some(all[k - 1].1)
                } else {
                    None::<u64>
                }),
                self@ == (PeerCtxView { sent_times: self.sent_times@, ..was }),
            decreases self.sent_times@.len(),
        {
            newest = Some(self.sent_times[0].1);
            self.sent_times.pop_front();
            proof {
                assert(all.skip(k as int).skip(1) =~= all.skip(k as int + 1));
                assert(all.skip(k as int)[0] == all[k as int]);
                k = k + 1;
            }
        }
        match newest {
            Some(at) => {
                self.rtt_micros = Some(elapsed(now, at));
            },
            None => {},
        }
        assert(self@ =~= acked(was, frontier, now));
        let mut events: Vec<NetEvent> = Vec::new();
        match delivery {
            Delivery::HorizonExceeded => {
                events.push(
                    NetEvent::Gone { player: self.player, reason: GoneReason::FellBehind },
                );
                assert(events@ =~= seq![
                    NetEvent::Gone { player: was.player, reason: GoneReason::FellBehind },
                ]);
                (events, false)
            },
            Delivery::Window { meta, entries } => {
                if meta.checkpoint_tick > 0 {
                    self.checkpoint = Some((meta.checkpoint_tick, meta.checkpoint_digest));
                }
                let player: usize = self.player;
                let mut i: usize = 0;
                while i < entries.len()
                    invariant
                        i <= entries@.len(),
                        events@ == input_events(player, meta, entries@.take(i as int)),
                    decreases entries@.len() - i,
                {
                    events.push(
                        NetEvent::Input {
                            player,
                            keys: entries[i].0,
                            tick_advantage: meta.tick_advantage,
                        },
                    );
                    i = i + 1;
                    assert(events@ =~= input_events(player, meta, entries@.take(i as int)));
                }
                assert(entries@.take(i as int) =~= entries@);
                (events, true)
            },
        }
    }

    /// The heartbeat fired: whether to resend the window. An interval in which
    /// something was sent is let pass.
    pub fn heartbeat(&mut self) -> (resend: bool)
        ensures
            resend == !old(self).sent,
            final(self)@ == (PeerCtxView { sent: false, ..old(self)@ }),
    {
        let resend = !self.sent;
        self.sent = false;
        resend
    }

    /// This tick went out to the peer, as `seq`.
    pub fn note_sent(&mut self, seq: u32, now: u64)
        ensures
            final(self)@ == sent_now(old(self)@, seq, now),
    {
        let ghost was = self@;
        self.sent_times.push_back((seq, now));
        if self.sent_times.len() > MAX_RTT_SAMPLES {
            let ghost all = self.sent_times@;
            self.sent_times.pop_front();
            assert(self.sent_times@ =~= all.skip(1));
        }
        self.sent = true;
        assert(self@ =~= sent_now(was, seq, now));
    }
}

/// A peer something was sent to: the sample joins the others, of which only so
/// many are kept.
pub open spec fn sent_now(p: PeerCtxView, seq: u32, now: u64) -> PeerCtxView {
    let all = p.sent_times.push((seq, now));
    PeerCtxView {
        sent_times: if all.len() > MAX_RTT_SAMPLES {
            all.skip(1)
        } else {
            all
        },
        sent: true,
        ..p
    }
}

/// A message on a peer's control channel: a peer that quits is gone, anything
/// else is let pass.
pub fn on_control(player: usize, bytes: &[u8]) -> (e: Option<NetEvent>)
    ensures
        e == (if read_control(bytes@) == Some(PeerControlView::Quit) {
            Some(NetEvent::Gone { player, reason: GoneReason::Quit })
        } else {
            None::<NetEvent>
        }),
{
    match PeerControl::decode(bytes) {
        Some(PeerControl::Quit) => Some(NetEvent::Gone { player, reason: GoneReason::Quit }),
        _ => None,
    }
}

/// A peer's channel closed: they are gone.
pub fn on_closed(player: usize) -> (e: NetEvent)
    ensures
        e == (NetEvent::Gone { player, reason: GoneReason::Disconnected }),
{
    NetEvent::Gone { player, reason: GoneReason::Disconnected }
}

// ---------------------------------------------------------------------
// Starting
// ---------------------------------------------------------------------

#[derive(Debug)]
pub struct NetplayArgs {
    pub bundle: SessionBundle,
    /// Per player, the ROM bytes their side boots (resolved from the local
    /// library by CRC32).
    pub roms: Vec<Vec<u8>>,
    pub present_delay: u32,
    /// What the machines are linked by.
    pub link: LinkKind,
}

/// One side of the link, as its player's machine was captured.
#[derive(Debug)]
pub struct BootSide {
    pub rom: Vec<u8>,
    pub save: Option<Vec<u8>>,
    pub state: Vec<u8>,
}

/// The netplay session's per-tick decisions and teardown. The pump owns
/// pacing; a tick is only begun when the session should attempt to advance one
/// frame.
#[derive(Debug)]
pub struct NetplayDriver {
    pub local_player: usize,
    pub local_rom: Vec<u8>,
    pub clock_unix_micros: u64,
    pub link: LinkKind,
    pub peers: Vec<PeerCtx>,
    /// The heartbeats are to stop.
    pub stop: bool,
    /// The times of the advances in the trailing second, oldest first.
    pub tick_times: VecDeque<u64>,
    /// How far the current tick is.
    pub stage: Stage,
}

/// A netplay session about to run: the driver, the state it shares, what
/// describes it, and the sides to boot the link from.
#[derive(Debug)]
pub struct NetplaySession {
    pub driver: NetplayDriver,
    pub shared: SharedSession,
    pub descriptor: SessionDescriptor,
    pub sides: Vec<BootSide>,
}

/// Whether a side is that of a ROM and an encoded capture.
pub open spec fn side_of(side: BootSide, rom: Seq<u8>, boot: Seq<u8>) -> bool {
    match unpacked_blob(boot) {
        Some(b) => side.rom@ == rom && side.state@ == b.state && (match side.save {
            Some(s) => b.save == Some(s@),
            None => b.save is None,
        }),
        None => false,
    }
}

/// What can be taken as a start: a ROM and a capture per player, and edges to
/// players there are.
pub open spec fn startable(args: NetplayArgs, edges: Seq<usize>) -> bool {
    &&& args.roms@.len() == args.bundle.players@.len()
    &&& args.bundle.boots@.len() == args.bundle.players@.len()
    &&& args.bundle.local_player < args.bundle.players@.len()
    &&& forall|i: int| 0 <= i < edges.len() ==> #[trigger] edges[i] < args.bundle.players@.len()
}

/// Whether every capture of a bundle can be read.
pub open spec fn boots_readable(boots: Seq<Vec<u8>>) -> bool {
    forall|i: int| 0 <= i < boots.len() ==> unpacked_blob((#[trigger] boots[i])@) is Some
}

/// A peer nothing was heard of yet.
pub open spec fn new_peer(player: usize, nick: Seq<char>, now: u64) -> PeerCtxView {
    PeerCtxView {
        player,
        nick,
        sent_times: Seq::empty(),
        sent: false,
        rtt_micros: None,
        checkpoint: None,
        last_heard: now,
    }
}

/// Whether a session is the one that a bundle starts: a peer per edge, a side
/// per player, and position 0's clock.
pub open spec fn started(
    s: NetplaySession,
    args: NetplayArgs,
    edges: Seq<usize>,
    now: u64,
) -> bool {
    let players = args.bundle.players@;
    let local = args.bundle.local_player;
    &&& s.driver.local_player == local
    &&& s.driver.local_rom@ == args.roms@[local as int]@
    &&& unpacked_blob(args.bundle.boots@[0]@) matches Some(b) && s.driver.clock_unix_micros
        == b.clock_unix_micros
    &&& s.driver.link == args.link
    &&& !s.driver.stop
    &&& s.driver.tick_times@.len() == 0
    &&& s.driver.stage is Idle
    &&& s.driver.peers@.len() == edges.len()
    &&& forall|i: int|
        0 <= i < edges.len() ==> (#[trigger] s.driver.peers@[i])@ == new_peer(
            edges[i],
            players[edges[i] as int].nick@,
            now,
        )
    &&& s.shared.is_fresh(args.present_delay, local)
    &&& s.descriptor.kind == SessionKind::Netplay
    &&& s.descriptor.local_player == local
    &&& s.descriptor.nicks@.len() == players.len()
    &&& forall|i: int|
        0 <= i < players.len() ==> (#[trigger] s.descriptor.nicks@[i])@ == players[i].nick@
    &&& s.descriptor.room_code == Some(args.bundle.room_code)
    &&& s.descriptor.rom_crc32 == Some(players[local as int].rom_crc32)
    &&& s.descriptor.link == args.link
    &&& s.sides@.len() == players.len()
    &&& forall|i: int|
        0 <= i < players.len() ==> side_of(
            #[trigger] s.sides@[i],
            args.roms@[i]@,
            args.bundle.boots@[i]@,
        )
}

/// Boot from the exchanged captures: `None` where one cannot be read. Every
/// peer rebuilds the identical link, the local side included; only position 0's
/// clock seeds it.
pub fn start(args: NetplayArgs, edges: &Vec<usize>, now: u64) -> (s: Option<NetplaySession>)
    requires
        startable(args, edges@),
    ensures
        match s {
            Some(s) => boots_readable(args.bundle.boots@) && started(s, args, edges@, now),
            None => !boots_readable(args.bundle.boots@),
        },
{
    let NetplayArgs { bundle, roms, present_delay, link } = args;
    let ghost players = bundle.players@;
    let local_player: usize = bundle.local_player;
    let mut sides: Vec<BootSide> = Vec::new();
    let mut clock_unix_micros: u64 = 0;
    let mut i: usize = 0;
    while i < bundle.boots.len()
        invariant
            i <= bundle.boots@.len(),
            bundle.boots@ == args.bundle.boots@,
            roms@.len() == bundle.boots@.len(),
            sides@.len() == i,
            forall|k: int|
                0 <= k < i ==> unpacked_blob((#[trigger] bundle.boots@[k])@) is Some,
            forall|k: int|
                0 <= k < i ==> side_of(#[trigger] sides@[k], roms@[k]@, bundle.boots@[k]@),
            i > 0 ==> clock_unix_micros == unpacked_blob(
                bundle.boots@[0]@,
            ).unwrap().clock_unix_micros,
        decreases bundle.boots@.len() - i,
    {
        let blob = match BootBlob::decode(bundle.boots[i].as_slice()) {
            Some(b) => b,
            None => {
                assert(unpacked_blob(args.bundle.boots@[i as int]@) is None);
                return None;
            },
        };
        if i == 0 {
            clock_unix_micros = blob.clock_unix_micros;
        }
        sides.push(
            BootSide {
                rom: crate::bytes::to_vec(roms[i].as_slice()),
                save: blob.save,
                state: blob.state,
            },
        );
        i = i + 1;
    }
    let mut peers: Vec<PeerCtx> = Vec::new();
    let mut e: usize = 0;
    while e < edges.len()
        invariant
            e <= edges@.len(),
            peers@.len() == e,
            bundle.players@ == players,
            forall|k: int| 0 <= k < edges@.len() ==> #[trigger] edges@[k] < players.len(),
            forall|k: int|
                0 <= k < e ==> (#[trigger] peers@[k])@ == new_peer(
                    edges@[k],
                    players[edges@[k] as int].nick@,
                    now,
                ),
        decreases edges@.len() - e,
    {
        let player: usize = edges[e];
        peers.push(PeerCtx::new(player, bundle.players[player].nick.as_str().to_owned(), now));
        e = e + 1;
    }
    let mut nicks: Vec<String> = Vec::new();
    let mut n: usize = 0;
    while n < bundle.players.len()
        invariant
            n <= players.len(),
            bundle.players@ == players,
            nicks@.len() == n,
            forall|k: int| 0 <= k < n ==> (#[trigger] nicks@[k])@ == players[k].nick@,
        decreases players.len() - n,
    {
        nicks.push(bundle.players[n].nick.as_str().to_owned());
        n = n + 1;
    }
    let rom_crc32: u32 = bundle.players[local_player].rom_crc32;
    let mut shared = SharedSession::new(present_delay);
    shared.view_player = local_player;
    let tick_times: VecDeque<u64> = VecDeque::new();
    let local_rom = crate::bytes::to_vec(roms[local_player].as_slice());
    Some(
        NetplaySession {
            driver: NetplayDriver {
                local_player,
                local_rom,
                clock_unix_micros,
                link,
                peers,
                stop: false,
                tick_times,
                stage: Stage::Idle,
            },
            shared,
            descriptor: SessionDescriptor {
                kind: SessionKind::Netplay,
                local_player,
                nicks,
                room_code: Some(bundle.room_code),
                rom_crc32: Some(rom_crc32),
                link,
            },
            sides,
        },
    )
}

// ---------------------------------------------------------------------
// The tick
// ---------------------------------------------------------------------

/// The position of a player's peer, from one on.
pub open spec fn slot_from(peers: Seq<PeerCtxView>, player: usize, i: int) -> Option<int>
    decreases peers.len() - i,
{
    if i >= peers.len() {
        None
    } else if peers[i].player == player {
        Some(i)
    } else {
        slot_from(peers, player, i + 1)
    }
}

/// The peers once an input of a player was heard.
pub open spec fn heard(peers: Seq<PeerCtxView>, player: usize, now: u64) -> Seq<PeerCtxView> {
    match slot_from(peers, player, 0) {
        Some(i) => peers.update(i, PeerCtxView { last_heard: now, ..peers[i] }),
        None => peers,
    }
}

/// The end that a peer's going is.
pub open spec fn end_of(player: usize, reason: GoneReason) -> SessionEnd {
    match reason {
        GoneReason::Quit => SessionEnd::PeerQuit { player },
        _ => SessionEnd::PeerDisconnected { player },
    }
}

/// What draining the network leaves: the peers, the inputs to hand on, and the
/// end, if a peer is gone.
pub struct Drained {
    pub peers: Seq<PeerCtxView>,
    pub inputs: Seq<RemoteInput>,
    pub end: Option<SessionEnd>,
}

/// Draining the network: every input is heard and handed on, up to the first
/// peer that is gone.
pub open spec fn drained(peers: Seq<PeerCtxView>, events: Seq<NetEvent>, now: u64) -> Drained
    decreases events.len(),
{
    if events.len() == 0 {
        Drained { peers, inputs: Seq::empty(), end: None }
    } else {
        match events[0] {
            NetEvent::Input { player, keys, tick_advantage } => {
                let rest = drained(heard(peers, player, now), events.skip(1), now);
                Drained {
                    inputs: seq![RemoteInput { player, keys: keys as u32, tick_advantage }]
                        + rest.inputs,
                    ..rest
                }
            },
            NetEvent::Gone { player, reason } => Drained {
                peers,
                inputs: Seq::empty(),
                end: Some(end_of(player, reason)),
            },
        }
    }
}

/// What to do before a tick is attempted.
#[derive(Debug)]
pub struct TickOpening {
    /// Give the engine this present delay.
    pub present_delay: Option<u32>,
    /// Hand these to the engine, in order.
    pub inputs: Vec<RemoteInput>,
    /// The session is over: attempt nothing.
    pub end: Option<SessionEnd>,
}

/// The silence of a peer.
pub open spec fn silence(p: PeerCtxView, now: u64) -> u64 {
    since(now, p.last_heard)
}

/// Whether a peer has been silent longest; of several, the last is.
pub open spec fn is_quietest(peers: Seq<PeerCtxView>, now: u64, slot: int) -> bool {
    &&& 0 <= slot < peers.len()
    &&& forall|i: int|
        0 <= i < peers.len() ==> silence(#[trigger] peers[i], now) <= silence(peers[slot], now)
    &&& forall|i: int|
        slot < i < peers.len() ==> silence(#[trigger] peers[i], now) < silence(peers[slot], now)
}

impl NetplayDriver {
    fn slot_of(&self, player: usize) -> (i: Option<usize>)
        ensures
            match i {
                Some(i) => i < self.peers@.len() && slot_from(peers_view(self.peers@), player, 0)
                    == Some(i as int),
                None => slot_from(peers_view(self.peers@), player, 0) is None,
            },
    {
        let mut i: usize = 0;
        while i < self.peers.len()
            invariant
                i <= self.peers@.len(),
                slot_from(peers_view(self.peers@), player, 0) == slot_from(
                    peers_view(self.peers@),
                    player,
                    i as int,
                ),
            decreases self.peers@.len() - i,
        {
            assert(peers_view(self.peers@)[i as int] == self.peers@[i as int]@);
            if self.peers[i].player == player {
                return Some(i);
            }
            i = i + 1;
        }
        None
    }

    fn hear(&mut self, player: usize, now: u64)
        ensures
            peers_view(final(self).peers@) == heard(peers_view(old(self).peers@), player, now),
            *final(self) == (NetplayDriver { peers: final(self).peers, ..*old(self) }),
    {
        match self.slot_of(player) {
            Some(i) => {
                let ghost was = peers_view(self.peers@);
                assert(was[i as int] == self.peers@[i as int]@);
                self.peers[i].last_heard = now;
                assert(peers_view(self.peers@) =~= heard(was, player, now));
            },
            None => {},
        }
    }

    /// Open a tick: take in what the UI asks for and what the network brought.
    pub fn open_tick(
        &mut self,
        shared: &SharedSession,
        present_delay: u32,
        events: &Vec<NetEvent>,
        now: u64,
    ) -> (o: TickOpening)
        ensures
            *final(self) == (NetplayDriver { peers: final(self).peers, ..*old(self) }),
            shared.quit ==> o.end == Some(SessionEnd::LocalQuit),
            !shared.quit && shared.unplug ==> o.end == Some(SessionEnd::Unplugged),
            shared.quit || shared.unplug ==> {
                &&& o.present_delay is None
                &&& o.inputs@.len() == 0
                &&& peers_view(final(self).peers@) == peers_view(old(self).peers@)
            },
            !shared.quit && !shared.unplug ==> {
                let d = drained(peers_view(old(self).peers@), events@, now);
                &&& o.present_delay == (if shared.present_delay != present_delay {
                    Some(shared.present_delay)
                } else {
                    None::<u32>
                })
                &&& o.inputs@ == d.inputs
                &&& o.end == d.end
                &&& peers_view(final(self).peers@) == d.peers
            },
    {
        if shared.quit {
            return TickOpening {
                present_delay: None,
                inputs: Vec::new(),
                end: Some(SessionEnd::LocalQuit),
            };
        }
        if shared.unplug {
            return TickOpening {
                present_delay: None,
                inputs: Vec::new(),
                end: Some(SessionEnd::Unplugged),
            };
        }
        let delay: Option<u32> = if shared.present_delay != present_delay {
            Some(shared.present_delay)
        } else {
            None
        };
        let ghost all = drained(peers_view(self.peers@), events@, now);
        let mut inputs: Vec<RemoteInput> = Vec::new();
        let mut i: usize = 0;
        proof {
            assert(events@.skip(0) =~= events@);
            assert(inputs@ + all.inputs =~= all.inputs);
        }
        while i < events.len()
            invariant
                i <= events@.len(),
                !shared.quit,
                !shared.unplug,
                delay == (if shared.present_delay != present_delay {
                    Some(shared.present_delay)
                } else {
                    None::<u32>
                }),
                all == drained(peers_view(old(self).peers@), events@, now),
                ({
                    let rest = drained(peers_view(self.peers@), events@.skip(i as int), now);
                    &&& all.inputs == inputs@ + rest.inputs
                    &&& all.peers == rest.peers
                    &&& all.end == rest.end
                }),
                *self == (NetplayDriver { peers: self.peers, ..*old(self) }),
            decreases events@.len() - i,
        {
            let ghost before = inputs@;
            let ghost left = events@.skip(i as int);
            proof {
                assert(left[0] == events@[i as int]);
                assert(left.skip(1) =~= events@.skip(i + 1));
            }
            match events[i] {
                NetEvent::Input { player, keys, tick_advantage } => {
                    self.hear(player, now);
                    let input = RemoteInput { player, keys: keys as u32, tick_advantage };
                    inputs.push(input);
                    proof {
                        let rest = drained(peers_view(self.peers@), events@.skip(i + 1), now);
                        assert(before + (seq![input] + rest.inputs) =~= inputs@ + rest.inputs);
                    }
                },
                NetEvent::Gone { player, reason } => {
                    let end = match reason {
                        GoneReason::Quit => SessionEnd::PeerQuit { player },
                        GoneReason::Disconnected => SessionEnd::PeerDisconnected { player },
                        GoneReason::FellBehind => SessionEnd::PeerDisconnected { player },
                    };
                    assert(inputs@ + Seq::<RemoteInput>::empty() =~= inputs@);
                    return TickOpening { present_delay: delay, inputs, end: Some(end) };
                },
            }
            i = i + 1;
        }
        assert(inputs@ + Seq::<RemoteInput>::empty() =~= inputs@);
        TickOpening { present_delay: delay, inputs, end: None }
    }

    /// The queue watchdog: a dead link can't stop the throttled sim from
    /// committing local inputs, so the unmatched queue climbs steadily toward
    /// the trip depth. Reaching it is the disconnect signal; the blame falls
    /// on whoever has been silent longest.
    pub fn watch(&self, queue_len: usize, now: u64) -> (end: Option<SessionEnd>)
        requires
            queue_len >= UNPLUG_QUEUE_LENGTH ==> self.peers@.len() > 0,
        ensures
            queue_len < UNPLUG_QUEUE_LENGTH ==> end is None,
            queue_len >= UNPLUG_QUEUE_LENGTH ==> exists|slot: int|
                #[trigger] is_quietest(peers_view(self.peers@), now, slot) && end == Some(
                    SessionEnd::PeerDisconnected { player: peers_view(self.peers@)[slot].player },
                ),
    {
        if queue_len < UNPLUG_QUEUE_LENGTH {
            return None;
        }
        let ghost pv = peers_view(self.peers@);
        let mut slot: usize = 0;
        let mut i: usize = 1;
        while i < self.peers.len()
            invariant
                1 <= i <= self.peers@.len(),
                slot < i,
                pv == peers_view(self.peers@),
                forall|k: int|
                    0 <= k < i ==> silence(#[trigger] pv[k], now) <= silence(pv[slot as int], now),
                forall|k: int|
                    slot < k < i ==> silence(#[trigger] pv[k], now) < silence(
                        pv[slot as int],
                        now,
                    ),
            decreases self.peers@.len() - i,
        {
            assert(pv[i as int] == self.peers@[i as int]@);
            assert(pv[slot as int] == self.peers@[slot as int]@);
            if elapsed(now, self.peers[i].last_heard) >= elapsed(now, self.peers[slot].last_heard) {
                slot = i;
            }
            i = i + 1;
        }
        assert(is_quietest(pv, now, slot as int));
        assert(pv[slot as int] == self.peers@[slot as int]@);
        Some(SessionEnd::PeerDisconnected { player: self.peers[slot].player })
    }

    /// The keys the local player holds.
    pub fn keys(&self, shared: &SharedSession) -> (keys: u32)
        ensures
            keys == shared.joyflags & JOYPAD_MASK,
    {
        shared.joyflags & JOYPAD_MASK
    }

    /// What a tick sends to every peer: the keys the engine committed, and how
    /// far it is, with its newest settled checkpoint if it has one.
    pub fn outgoing(
        &self,
        keys: u32,
        tick_advantage: i16,
        checkpoint: Option<(u32, u32)>,
    ) -> (o: (Input, Meta))
        ensures
            o.0 == Input(keys as u16),
            o.1 == meta_of(tick_advantage, checkpoint),
    {
        let (checkpoint_tick, checkpoint_digest) = match checkpoint {
            Some(c) => c,
            None => (0, 0),
        };
        (Input(keys as u16), Meta { tick_advantage, checkpoint_tick, checkpoint_digest })
    }

    /// Cross-peer desync check: compare each peer's newest reported settled
    /// digest against our own at that tick. `known` is, per peer, our digest at
    /// the tick of that peer's checkpoint, if we still have it.
    pub fn check_digests(&mut self, known: &Vec<Option<u32>>) -> (end: Option<SessionEnd>)
        requires
            known@.len() == old(self).peers@.len(),
        ensures
            *final(self) == (NetplayDriver { peers: final(self).peers, ..*old(self) }),
            match first_desync(peers_view(old(self).peers@), known@, 0) {
                Some(i) => {
                    &&& end == Some(
                        SessionEnd::Desync {
                            tick: peers_view(old(self).peers@)[i].checkpoint.unwrap().0,
                        },
                    )
                    &&& peers_view(final(self).peers@) == checkpoints_taken(
                        peers_view(old(self).peers@),
                        i + 1,
                    )
                },
                None => {
                    &&& end is None
                    &&& peers_view(final(self).peers@) == checkpoints_taken(
                        peers_view(old(self).peers@),
                        old(self).peers@.len() as int,
                    )
                },
            },
    {
        let ghost was = peers_view(self.peers@);
        let mut i: usize = 0;
        proof {
            assert(was =~= checkpoints_taken(was, 0));
        }
        while i < self.peers.len()
            invariant
                i <= self.peers@.len(),
                self.peers@.len() == was.len(),
                known@.len() == was.len(),
                was == peers_view(old(self).peers@),
                peers_view(self.peers@) == checkpoints_taken(was, i as int),
                first_desync(was, known@, 0) == first_desync(was, known@, i as int),
                *self == (NetplayDriver { peers: self.peers, ..*old(self) }),
            decreases self.peers@.len() - i,
        {
            assert(peers_view(self.peers@)[i as int] == self.peers@[i as int]@);
            assert(self.peers@[i as int].checkpoint == was[i as int].checkpoint);
            let taken: Option<(u32, u32)> = self.peers[i].checkpoint;
            let ghost before = self.peers@;
            self.peers[i].checkpoint = None;
            proof {
                let now_taken = checkpoints_taken(was, i + 1);
                assert forall|k: int| 0 <= k < was.len() implies peers_view(self.peers@)[k]
                    == now_taken[k] by {
                    assert(peers_view(before)[k] == checkpoints_taken(was, i as int)[k]);
                    if k == i {
                        assert(self.peers@[k]@ =~= now_taken[k]);
                    } else {
                        assert(self.peers@[k] == before[k]);
                    }
                }
                assert(peers_view(self.peers@) =~= now_taken);
            }
            match (taken, known[i]) {
                (Some((tick, digest)), Some(mine)) => {
                    if mine != digest {
                        return Some(SessionEnd::Desync { tick });
                    }
                },
                _ => {},
            }
            i = i + 1;
        }
        None
    }

    /// This tick advanced: how many did in the trailing second.
    pub fn note_tick(&mut self, now: u64) -> (tps: usize)
        ensures
            final(self).tick_times@ == recent(old(self).tick_times@.push(now), now),
            tps == final(self).tick_times@.len(),
            *final(self) == (NetplayDriver { tick_times: final(self).tick_times, ..*old(self) }),
    {
        self.tick_times.push_back(now);
        let ghost all = recent(self.tick_times@, now);
        while self.tick_times.len() > 0 && elapsed(now, self.tick_times[0]) > TPS_WINDOW_MICROS
            invariant
                recent(self.tick_times@, now) == all,
                *self == (NetplayDriver { tick_times: self.tick_times, ..*old(self) }),
            decreases self.tick_times@.len(),
        {
            let ghost before = self.tick_times@;
            self.tick_times.pop_front();
            assert(self.tick_times@ =~= before.skip(1));
        }
        self.tick_times.len()
    }

    /// What is known of the peers, for the telemetry panel.
    pub fn peer_stats(&self) -> (stats: Vec<PeerStat>)
        ensures
            crate::session::peer_stats_view(stats@) == peers_view(self.peers@).map_values(
                |p: PeerCtxView| peer_stat(p),
            ),
    {
        let mut stats: Vec<PeerStat> = Vec::new();
        let mut i: usize = 0;
        while i < self.peers.len()
            invariant
                i <= self.peers@.len(),
                stats@.len() == i,
                forall|k: int|
                    0 <= k < i ==> (#[trigger] stats@[k])@ == peer_stat(
                        peers_view(self.peers@)[k],
                    ),
            decreases self.peers@.len() - i,
        {
            stats.push(
                PeerStat {
                    player: self.peers[i].player,
                    nick: self.peers[i].nick.as_str().to_owned(),
                    rtt_micros: self.peers[i].rtt_micros,
                },
            );
            i = i + 1;
        }
        assert(crate::session::peer_stats_view(stats@) =~= peers_view(self.peers@).map_values(
            |p: PeerCtxView| peer_stat(p),
        ));
        stats
    }

    /// Close a tick that advanced: publish the frame, the pace and the
    /// statistics. `pace` is the bits of the pace the throttler asks for.
    pub fn close_tick(
        &mut self,
        shared: &mut SharedSession,
        frame: Option<Vec<u8>>,
        pace: u32,
        report: TickReport,
        now: u64,
    )
        ensures
            tick_closed(
                *old(self),
                *final(self),
                *old(shared),
                *final(shared),
                frame,
                pace,
                report,
                now,
            ),
    {
        match frame {
            Some(f) => {
                shared.publish_video(f.as_slice());
            },
            None => {},
        }
        shared.set_fps_target(pace);
        let tps: usize = self.note_tick(now);
        shared.stats = Stats {
            queue_len: report.queue_len as u32,
            skew: report.skew,
            rolled_back: report.rolled_back,
            confirmed: report.confirmed,
            frontier: report.frontier,
            slices_peak: report.slices_peak,
            tps: tps as u32,
            fps_target: pace,
            peers: self.peer_stats(),
        };
    }

    /// Teardown. Where the end [unplugs](SessionEnd::unplugs), `captured` is
    /// the local machine as it stands, and the handoff is left for the solo
    /// continuation. A deliberate local quit or unplug announces itself to the
    /// peers: the message to send on every control channel.
    pub fn finish(
        &mut self,
        shared: &mut SharedSession,
        end: SessionEnd,
        captured: Option<Captured>,
    ) -> (announce: Option<Vec<u8>>)
        ensures
            finished(
                *old(self),
                *final(self),
                *old(shared),
                *final(shared),
                end,
                captured,
                announce,
            ),
    {
        self.stop = true;
        if end.unplugs() {
            match captured {
                Some(c) => {
                    let mut rom: Vec<u8> = Vec::new();
                    std::mem::swap(&mut rom, &mut self.local_rom);
                    shared.handoff = Some(
                        Handoff {
                            rom,
                            state: c.state,
                            save: c.save,
                            rtc_unix_micros: self.clock_unix_micros,
                            link: self.link,
                            adapter: c.adapter,
                        },
                    );
                },
                None => {},
            }
        }
        let announce: Option<Vec<u8>> = match &end {
            SessionEnd::LocalQuit => PeerControl::Quit.encode(),
            SessionEnd::Unplugged => PeerControl::Quit.encode(),
            _ => None,
        };
        shared.finish(end);
        announce
    }
}

/// The local machine as a link leaves it.
#[derive(Debug)]
pub struct Captured {
    pub state: Vec<u8>,
    pub save: Option<Vec<u8>>,
    pub adapter: Option<Vec<u8>>,
}

/// What goes out with a tick's keys: how far the engine is, and its newest
/// settled checkpoint, if it has one.
pub open spec fn meta_of(tick_advantage: i16, checkpoint: Option<(u32, u32)>) -> Meta {
    Meta {
        tick_advantage,
        checkpoint_tick: match checkpoint {
            Some(c) => c.0,
            None => 0,
        },
        checkpoint_digest: match checkpoint {
            Some(c) => c.1,
            None => 0,
        },
    }
}

/// What the engine says of an advance.
#[derive(Debug, Clone, Copy, PartialEq, Eq, Structural)]
pub struct TickReport {
    /// Read once the network was drained into the engine.
    pub queue_len: usize,
    /// Read before the advance enqueued this tick's local input.
    pub skew: i32,
    pub rolled_back: u32,
    pub confirmed: u32,
    pub frontier: u32,
    pub slices_peak: u32,
}

/// Whether a tick was closed: the frame, the pace and the statistics are
/// published, and nothing else is touched.
pub open spec fn tick_closed(
    d0: NetplayDriver,
    d1: NetplayDriver,
    s0: SharedSession,
    s1: SharedSession,
    frame: Option<Vec<u8>>,
    pace: u32,
    report: TickReport,
    now: u64,
) -> bool {
    &&& d1.tick_times@ == recent(d0.tick_times@.push(now), now)
    &&& d1 == (NetplayDriver { tick_times: d1.tick_times, ..d0 })
    &&& match frame {
        Some(f) => s1.vbuf@ == f@ && s1.vbuf_rev as int == (s0.vbuf_rev + 1)
            % 0x1_0000_0000_0000_0000,
        None => s1.vbuf@ == s0.vbuf@ && s1.vbuf_rev == s0.vbuf_rev,
    }
    &&& s1.stats@ == (StatsView {
        queue_len: report.queue_len as u32,
        skew: report.skew,
        rolled_back: report.rolled_back,
        confirmed: report.confirmed,
        frontier: report.frontier,
        slices_peak: report.slices_peak,
        tps: d1.tick_times@.len() as u32,
        fps_target: pace,
        peers: peers_view(d0.peers@).map_values(|p: PeerCtxView| peer_stat(p)),
    })
    &&& s1 == (SharedSession {
        vbuf: s1.vbuf,
        vbuf_rev: s1.vbuf_rev,
        fps_target: pace,
        stats: s1.stats,
        ..s0
    })
}

/// Whether a session was torn down: its end is published, the machine is left
/// for the solo continuation where it survives, and a deliberate end is
/// announced.
pub open spec fn finished(
    d0: NetplayDriver,
    d1: NetplayDriver,
    s0: SharedSession,
    s1: SharedSession,
    end: SessionEnd,
    captured: Option<Captured>,
    announce: Option<Vec<u8>>,
) -> bool {
    &&& d1 == (NetplayDriver { stop: true, local_rom: d1.local_rom, ..d0 })
    &&& match announce {
        Some(b) => is_deliberate(end) && b@ == control_bytes(PeerControlView::Quit),
        None => !is_deliberate(end),
    }
    &&& if end_unplugs(end) && captured is Some {
        let c = captured.unwrap();
        &&& s1.handoff == Some(
            Handoff {
                rom: d0.local_rom,
                state: c.state,
                save: c.save,
                rtc_unix_micros: d0.clock_unix_micros,
                link: d0.link,
                adapter: c.adapter,
            },
        )
        &&& d1.local_rom@.len() == 0
    } else {
        &&& s1.handoff == s0.handoff
        &&& d1.local_rom == d0.local_rom
    }
    &&& s1 == (SharedSession {
        end: if s0.end is None {
            Some(end)
        } else {
            s0.end
        },
        fps_target: 0,
        handoff: s1.handoff,
        ..s0
    })
}

/// Whether the local player meant it.
pub open spec fn is_deliberate(end: SessionEnd) -> bool {
    end is LocalQuit || end is Unplugged
}

/// What is said of a peer.
pub open spec fn peer_stat(p: PeerCtxView) -> PeerStatView {
    PeerStatView { player: p.player, nick: p.nick, rtt_micros: p.rtt_micros }
}

/// The times within the window, the oldest being first.
pub open spec fn recent(times: Seq<u64>, now: u64) -> Seq<u64>
    decreases times.len(),
{
    if times.len() > 0 && since(now, times[0]) > TPS_WINDOW_MICROS {
        recent(times.skip(1), now)
    } else {
        times
    }
}

/// Whether a peer reports another digest than ours.
pub open spec fn disagrees(p: PeerCtxView, mine: Option<u32>) -> bool {
    p.checkpoint is Some && mine is Some && p.checkpoint.unwrap().1 != mine.unwrap()
}

/// The first peer, from a position on, that reports another digest than ours.
pub open spec fn first_desync(
    peers: Seq<PeerCtxView>,
    known: Seq<Option<u32>>,
    i: int,
) -> Option<int>
    decreases peers.len() - i,
{
    if i >= peers.len() {
        None
    } else if disagrees(peers[i], known[i]) {
        Some(i)
    } else {
        first_desync(peers, known, i + 1)
    }
}

/// The peers, with the checkpoints of the first `n` taken.
pub open spec fn checkpoints_taken(peers: Seq<PeerCtxView>, n: int) -> Seq<PeerCtxView> {
    Seq::new(
        peers.len(),
        |i: int|
            if i < n {
                PeerCtxView { checkpoint: None, ..peers[i] }
            } else {
                peers[i]
            },
    )
}

// ---------------------------------------------------------------------
// Laws
// ---------------------------------------------------------------------

/// The watchdog blames one peer, and only one.
pub proof fn law_the_quietest_is_one(peers: Seq<PeerCtxView>, now: u64, a: int, b: int)
    requires
        is_quietest(peers, now, a),
        is_quietest(peers, now, b),
    ensures
        a == b,
{
    assert(silence(peers[a], now) == silence(peers[b], now));
}

/// The first peer that is gone ends the session: what was said before is
/// handed on in full, and nothing said after is heard.
pub proof fn law_nobody_speaks_after_they_are_gone(
    peers: Seq<PeerCtxView>,
    said: Seq<NetEvent>,
    player: usize,
    reason: GoneReason,
    more: Seq<NetEvent>,
    now: u64,
)
    requires
        forall|i: int| 0 <= i < said.len() ==> (#[trigger] said[i]) is Input,
    ensures
        ({
            let with_more = drained(
                peers,
                said + seq![NetEvent::Gone { player, reason }] + more,
                now,
            );
            let alone = drained(peers, said, now);
            &&& with_more.peers == alone.peers
            &&& with_more.inputs == alone.inputs
            &&& with_more.end == Some(end_of(player, reason))
            &&& alone.end is None
            &&& alone.inputs.len() == said.len()
        }),
    decreases said.len(),
{
    let gone = seq![NetEvent::Gone { player, reason }];
    let all = said + gone + more;
    if said.len() > 0 {
        match said[0] {
            NetEvent::Input { player: p, keys, tick_advantage } => {
                let next = heard(peers, p, now);
                assert(all[0] == said[0]);
                assert(all.skip(1) =~= said.skip(1) + gone + more);
                assert forall|i: int| 0 <= i < said.skip(1).len() implies (#[trigger] said.skip(
                    1,
                )[i]) is Input by {
                    assert(said[i + 1] is Input);
                }
                law_nobody_speaks_after_they_are_gone(
                    next,
                    said.skip(1),
                    player,
                    reason,
                    more,
                    now,
                );
            },
            NetEvent::Gone { .. } => {},
        }
    } else {
        assert(all[0] == gone[0]);
    }
}

/// However long the session, no more than so many samples are kept per peer.
pub proof fn law_samples_are_bounded(p: PeerCtxView, seq: u32, now: u64)
    requires
        p.sent_times.len() <= MAX_RTT_SAMPLES,
    ensures
        sent_now(p, seq, now).sent_times.len() <= MAX_RTT_SAMPLES,
        sent_now(p, seq, now).sent_times.last() == (seq, now),
{
}

/// A desync is never passed over: unless the session ends with one, every peer
/// whose checkpoint we can judge agrees with us.
pub proof fn law_no_desync_is_passed_over(
    peers: Seq<PeerCtxView>,
    known: Seq<Option<u32>>,
    from: int,
    i: int,
)
    requires
        known.len() == peers.len(),
        first_desync(peers, known, from) is None,
        0 <= from <= i < peers.len(),
    ensures
        !disagrees(peers[i], known[i]),
    decreases peers.len() - from,
{
    if from < i {
        law_no_desync_is_passed_over(peers, known, from + 1, i);
    }
}

} // verus!
