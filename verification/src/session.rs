//! Session state: what a running emulator shares with the UI and the audio
//! pump. Two kinds, netplay and local, publish the same [`SharedSession`] so
//! the session view renders them uniformly.
use vstd::prelude::*;

pub mod laws;
pub mod local;
pub mod netplay;
pub mod playback;

verus! {

/// The netplay queue watchdog's trip depth: local inputs buffered with nothing
/// from a peer to match them before the link is declared dead and the cable
/// unplugs. Watching the queue itself rather than a silence duration means the
/// trip always fires a fixed margin below the transport horizon, no matter how
/// fast the throttled sim actually grows it. 180 frames are about 3 s of play.
pub const UNPLUG_QUEUE_LENGTH: usize = 180;

/// Samples retained per metric (about 3 s at the tick rate).
pub const HISTORY_LEN: usize = 180;

/// The bytes of one frame: 240 by 160 pixels of 2 bytes.
pub const SCREEN_BYTES: usize = 76_800;

#[derive(Debug, Clone, PartialEq, Eq)]
pub enum SessionEnd {
    LocalQuit,
    /// The local player pulled the cable: the netplay session ends but the
    /// local machine continues solo (see [`SharedSession::handoff`]).
    Unplugged,
    PeerQuit { player: usize },
    PeerDisconnected { player: usize },
    Desync { tick: u32 },
    Error(String),
}

/// Whether the local machine survives an end: netplay teardown is a cable
/// unplug, not a power-off, so anything short of a local quit or a dead
/// emulator leaves a machine to keep playing.
pub open spec fn end_unplugs(end: SessionEnd) -> bool {
    match end {
        SessionEnd::LocalQuit => false,
        SessionEnd::Error(_) => false,
        _ => true,
    }
}

impl SessionEnd {
    /// Whether the local machine survives this end.
    pub fn unplugs(&self) -> (b: bool)
        ensures
            b == end_unplugs(*self),
    {
        match self {
            SessionEnd::Unplugged => true,
            SessionEnd::PeerQuit { .. } => true,
            SessionEnd::PeerDisconnected { .. } => true,
            SessionEnd::Desync { .. } => true,
            _ => false,
        }
    }
}

/// Which link peripheral a session's machines are wired to. The room creator's
/// choice; carried through boot payloads so every peer builds the same kind of
/// link.
#[derive(Debug, Clone, Copy, PartialEq, Eq, Structural)]
pub enum LinkKind {
    Cable,
    Wireless,
}

impl Default for LinkKind {
    fn default() -> (k: LinkKind)
        ensures
            k == LinkKind::Cable,
    {
        LinkKind::Cable
    }
}

/// What a peripheral is called.
pub open spec fn link_label(k: LinkKind) -> Seq<char> {
    match k {
        LinkKind::Cable => "Link cable"@,
        LinkKind::Wireless => "Wireless adapter"@,
    }
}

impl LinkKind {
    pub fn label(self) -> (l: &'static str)
        ensures
            l@ == link_label(self),
    {
        match self {
            LinkKind::Cable => "Link cable",
            LinkKind::Wireless => "Wireless adapter",
        }
    }
}

/// The local side's continuation material when a netplay session ends:
/// everything a solo session needs to keep the machine running (the cable
/// unplugs, the game goes on).
#[derive(Debug)]
pub struct Handoff {
    pub rom: Vec<u8>,
    /// Serialized core state.
    pub state: Vec<u8>,
    /// SRAM/flash image at teardown.
    pub save: Option<Vec<u8>>,
    /// The session's pinned cart clock, carried into the continuation so
    /// clock games don't see time jump.
    pub rtc_unix_micros: u64,
    /// The session's link peripheral: the continuation keeps the same
    /// hardware on the port (a wireless game keeps its adapter).
    pub link: LinkKind,
    /// The live adapter session on a wireless link: the continuation resumes
    /// it, and the departed peers simply fall out of range.
    pub adapter: Option<Vec<u8>>,
}

#[derive(Debug, Clone, Copy, PartialEq, Eq, Structural)]
pub enum SessionKind {
    Netplay,
    Local,
}

/// What the session view needs to label things.
#[derive(Debug)]
pub struct SessionDescriptor {
    pub kind: SessionKind,
    pub local_player: usize,
    pub nicks: Vec<String>,
    pub room_code: Option<String>,
    /// The local player's ROM identity, for opening a lobby from a running
    /// session.
    pub rom_crc32: Option<u32>,
    /// The link peripheral on this session's machines.
    pub link: LinkKind,
}

/// What is known of one peer's connection.
#[derive(Debug)]
pub struct PeerStat {
    pub player: usize,
    pub nick: String,
    /// The newest measured round trip, in microseconds.
    pub rtt_micros: Option<u64>,
}

/// What a [`PeerStat`] says.
#[verifier::ext_equal]
pub struct PeerStatView {
    pub player: usize,
    pub nick: Seq<char>,
    pub rtt_micros: Option<u64>,
}

impl View for PeerStat {
    type V = PeerStatView;

    open spec fn view(&self) -> PeerStatView {
        PeerStatView { player: self.player, nick: self.nick@, rtt_micros: self.rtt_micros }
    }
}

/// What a list of peer statistics says.
pub open spec fn peer_stats_view(p: Seq<PeerStat>) -> Seq<PeerStatView> {
    p.map_values(|p: PeerStat| p@)
}

/// Written by the drivers; read by the session view and the telemetry panel.
#[derive(Debug)]
pub struct Stats {
    pub queue_len: u32,
    pub skew: i32,
    pub rolled_back: u32,
    pub confirmed: u32,
    pub frontier: u32,
    /// Peak run-loop slices a single simulated tick took inside the newest
    /// advance: the lockstep-livelock early-warning.
    pub slices_peak: u32,
    /// Actually achieved simulated ticks in the trailing second, as opposed to
    /// `fps_target` (the pace the throttler is currently asking for).
    pub tps: u32,
    /// The pace asked for, as the bits of an IEEE single.
    pub fps_target: u32,
    pub peers: Vec<PeerStat>,
}

/// What [`Stats`] say.
#[verifier::ext_equal]
pub struct StatsView {
    pub queue_len: u32,
    pub skew: i32,
    pub rolled_back: u32,
    pub confirmed: u32,
    pub frontier: u32,
    pub slices_peak: u32,
    pub tps: u32,
    pub fps_target: u32,
    pub peers: Seq<PeerStatView>,
}

impl View for Stats {
    type V = StatsView;

    open spec fn view(&self) -> StatsView {
        StatsView {
            queue_len: self.queue_len,
            skew: self.skew,
            rolled_back: self.rolled_back,
            confirmed: self.confirmed,
            frontier: self.frontier,
            slices_peak: self.slices_peak,
            tps: self.tps,
            fps_target: self.fps_target,
            peers: peer_stats_view(self.peers@),
        }
    }
}

/// Statistics before anything was measured.
pub open spec fn no_stats() -> StatsView {
    StatsView {
        queue_len: 0,
        skew: 0,
        rolled_back: 0,
        confirmed: 0,
        frontier: 0,
        slices_peak: 0,
        tps: 0,
        fps_target: 0,
        peers: Seq::empty(),
    }
}

impl Default for Stats {
    fn default() -> (s: Stats)
        ensures
            s@ == no_stats(),
    {
        let s = Stats {
            queue_len: 0,
            skew: 0,
            rolled_back: 0,
            confirmed: 0,
            frontier: 0,
            slices_peak: 0,
            tps: 0,
            fps_target: 0,
            peers: Vec::new(),
        };
        assert(s@ =~= no_stats());
        s
    }
}

/// One per-frame snapshot, kept in a ring buffer so each telemetry metric can
/// draw a sparkline. `pings` is indexed by peer slot (same order as
/// [`Stats::peers`]).
#[derive(Debug)]
pub struct MetricSample {
    pub tps: u32,
    pub fps_target: u32,
    pub skew: i32,
    pub lead: i32,
    pub depth: u32,
    pub pings: Vec<Option<u64>>,
}

/// What a [`MetricSample`] says.
#[verifier::ext_equal]
pub struct MetricSampleView {
    pub tps: u32,
    pub fps_target: u32,
    pub skew: i32,
    pub lead: i32,
    pub depth: u32,
    pub pings: Seq<Option<u64>>,
}

impl View for MetricSample {
    type V = MetricSampleView;

    open spec fn view(&self) -> MetricSampleView {
        MetricSampleView {
            tps: self.tps,
            fps_target: self.fps_target,
            skew: self.skew,
            lead: self.lead,
            depth: self.depth,
            pings: self.pings@,
        }
    }
}

/// The snapshot of some statistics.
pub open spec fn sampled(s: StatsView) -> MetricSampleView {
    MetricSampleView {
        tps: s.tps,
        fps_target: s.fps_target,
        skew: s.skew,
        lead: s.queue_len as i32,
        depth: s.rolled_back,
        pings: s.peers.map_values(|p: PeerStatView| p.rtt_micros),
    }
}

impl MetricSample {
    pub fn capture(stats: &Stats) -> (m: MetricSample)
        ensures
            m@ == sampled(stats@),
    {
        let mut pings: Vec<Option<u64>> = Vec::new();
        let mut i: usize = 0;
        while i < stats.peers.len()
            invariant
                i <= stats.peers@.len(),
                pings@.len() == i,
                forall|k: int| 0 <= k < i ==> pings@[k] == stats.peers@[k].rtt_micros,
            decreases stats.peers@.len() - i,
        {
            pings.push(stats.peers[i].rtt_micros);
            i = i + 1;
        }
        assert(pings@ =~= sampled(stats@).pings);
        MetricSample {
            tps: stats.tps,
            fps_target: stats.fps_target,
            skew: stats.skew,
            lead: stats.queue_len as i32,
            depth: stats.rolled_back,
            pings,
        }
    }
}

/// Whether an IEEE single, given by its bits, is zero or negative.
pub open spec fn not_positive(bits: u32) -> bool {
    bits == 0 || 0x8000_0000 <= bits <= 0xff80_0000
}

/// State shared between the driver, the audio pump, and the UI. One instance
/// per session, regardless of kind.
#[derive(Debug)]
pub struct SharedSession {
    /// Latest presented frame: raw little-endian BGR555.
    pub vbuf: Vec<u8>,
    /// Bumped whenever `vbuf` changes, so the presenter knows to re-upload.
    pub vbuf_rev: u64,
    /// The pace the simulation is currently targeting, as the bits of an IEEE
    /// single; the audio servo keys its clock off it. Zero = paused/silent.
    pub fps_target: u32,
    /// The local joypad, written by the runtime pump every tick.
    pub joyflags: u32,
    /// Which player's screen (and audio) to present. For netplay this is
    /// pinned to the local player; local sessions can switch.
    pub view_player: usize,
    /// Netplay: present delay, adjustable live.
    pub present_delay: u32,
    /// Local: pause flag.
    pub paused: bool,
    /// Local: resume must also discard the old pacing deadline. This is
    /// separate from `paused` because a short pause can begin and end between
    /// two pumps; in that case the pump never observes `paused == true` and
    /// cannot reset its clock on its own.
    pub pace_reset_requested: bool,
    /// Local: speed percent (100 = 1x), for hold-to-fast-forward.
    pub speed: u32,
    /// UI to driver: end the session.
    pub quit: bool,
    /// UI to netplay driver: pull the cable (end the session, but leave a
    /// handoff for the solo continuation).
    pub unplug: bool,
    /// Driver to UI: why the session ended.
    pub end: Option<SessionEnd>,
    /// Netplay driver to UI: the local machine's continuation, captured at
    /// teardown whenever the end [`unplugs`](SessionEnd::unplugs).
    pub handoff: Option<Handoff>,
    pub stats: Stats,
}

impl SharedSession {
    /// Nothing has happened yet: a black frame that nobody presented, full
    /// speed, no pace, and nothing asked of the driver.
    pub open spec fn is_fresh(self, present_delay: u32, view_player: usize) -> bool {
        &&& self.vbuf@ == Seq::new(SCREEN_BYTES as nat, |i: int| 0u8)
        &&& self.vbuf_rev == 0
        &&& self.fps_target == 0
        &&& self.joyflags == 0
        &&& self.view_player == view_player
        &&& self.present_delay == present_delay
        &&& !self.paused
        &&& !self.pace_reset_requested
        &&& self.speed == 100
        &&& !self.quit
        &&& !self.unplug
        &&& self.end is None
        &&& self.handoff is None
        &&& self.stats@ == no_stats()
    }

    pub fn new(present_delay: u32) -> (s: SharedSession)
        ensures
            s.is_fresh(present_delay, 0),
    {
        let vbuf: Vec<u8> = vec![0u8; SCREEN_BYTES];
        assert(vbuf@ =~= Seq::new(SCREEN_BYTES as nat, |i: int| 0u8));
        SharedSession {
            vbuf,
            vbuf_rev: 0,
            fps_target: 0,
            joyflags: 0,
            view_player: 0,
            present_delay,
            paused: false,
            pace_reset_requested: false,
            speed: 100,
            quit: false,
            unplug: false,
            end: None,
            handoff: None,
            stats: Stats::default(),
        }
    }

    /// Publish the pace, by the bits of an IEEE single.
    pub fn set_fps_target(&mut self, bits: u32)
        ensures
            *final(self) == (SharedSession { fps_target: bits, ..*old(self) }),
    {
        self.fps_target = bits;
    }

    /// Whether the simulation is running at a pace above zero.
    pub fn is_running(&self) -> (b: bool)
        ensures
            b == !not_positive(self.fps_target),
    {
        !(self.fps_target == 0 || (0x8000_0000 <= self.fps_target && self.fps_target
            <= 0xff80_0000))
    }

    /// Resume a locally paced session without trying to make up time spent
    /// paused: the old pacing deadline is to be discarded.
    pub fn resume(&mut self)
        ensures
            *final(self) == (SharedSession {
                pace_reset_requested: true,
                paused: false,
                ..*old(self)
            }),
    {
        self.pace_reset_requested = true;
        self.paused = false;
    }

    /// Whether the pacing deadline is to be discarded; asking takes the
    /// request.
    pub fn take_pace_reset(&mut self) -> (b: bool)
        ensures
            b == old(self).pace_reset_requested,
            *final(self) == (SharedSession { pace_reset_requested: false, ..*old(self) }),
    {
        let b = self.pace_reset_requested;
        self.pace_reset_requested = false;
        b
    }

    /// Publish the presented core's raw frame.
    pub fn publish_video(&mut self, bgr555: &[u8])
        ensures
            final(self).vbuf@ == bgr555@,
            final(self).vbuf_rev as int == (old(self).vbuf_rev + 1) % 0x1_0000_0000_0000_0000,
            *final(self) == (SharedSession {
                vbuf: final(self).vbuf,
                vbuf_rev: final(self).vbuf_rev,
                ..*old(self)
            }),
    {
        self.vbuf = crate::bytes::to_vec(bgr555);
        self.vbuf_rev = self.vbuf_rev.wrapping_add(1);
    }

    /// End the session. The first end stays.
    pub fn finish(&mut self, end: SessionEnd)
        ensures
            *final(self) == (SharedSession {
                end: if old(self).end is None {
                    Some(end)
                } else {
                    old(self).end
                },
                fps_target: 0,
                ..*old(self)
            }),
    {
        if self.end.is_none() {
            self.end = Some(end);
        }
        self.fps_target = 0;
    }
}

} // verus!
