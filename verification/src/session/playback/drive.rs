//! Driving playback: what a replay boots from, the cursor over its inputs, and
//! what the drive loop does each round.
use vstd::prelude::*;
use crate::net::protocol::{unpacked_blob, BootBlob};
use crate::replay::{Metadata, Replay};
use crate::session::playback::engine::{
    gap_at, keyframe_interval, ring_after, RewindRing, SnapshotStore, KEYFRAME_INTERVAL_MIN,
    MIN_SPEED,
};
use crate::session::playback::seek::SeekController;
use crate::session::playback::ticks::put;
use crate::session::{SessionEnd, SharedSession};

verus! {

// ---------------------------------------------------------------------
// Booting
// ---------------------------------------------------------------------

/// The clock a replay without a pinned one boots with, in micros since the
/// unix epoch.
pub const DEFAULT_RTC_UNIX_MICROS: u64 = 1_600_000_000_000_000;

/// Everything needed to boot a playback link, in player order.
#[derive(Debug)]
pub struct BootConfig {
    pub roms: Vec<Vec<u8>>,
    /// Per player, the encoded boot payload the recording started from.
    /// All-or-nothing: either every side has one (the session was a plugged-in
    /// cable) or none does (a power-on boot).
    pub boots: Vec<Option<Vec<u8>>>,
    pub rtc_unix_micros: Option<u64>,
}

/// One side of a link booted from captures.
#[derive(Debug)]
pub struct BootSide {
    pub rom: Vec<u8>,
    pub save: Option<Vec<u8>>,
    pub state: Vec<u8>,
}

/// How a playback link boots.
#[derive(Debug)]
pub enum BootPlan {
    /// From the recorded plug-in captures.
    Captured(Vec<BootSide>),
    /// By a hard reset of every side, without saves.
    PowerOn(Vec<Vec<u8>>),
}

/// Why a playback link cannot boot.
#[derive(Debug, Clone, Copy, PartialEq, Eq, Structural)]
pub enum BootError {
    /// Some sides were captured and some were not.
    MixedSides,
    /// A capture cannot be read.
    BadCapture,
}

/// Whether every side was captured.
pub open spec fn all_captured(boots: Seq<Option<Vec<u8>>>) -> bool {
    forall|i: int| 0 <= i < boots.len() ==> #[trigger] boots[i] is Some
}

/// Whether no side was captured.
pub open spec fn none_captured(boots: Seq<Option<Vec<u8>>>) -> bool {
    forall|i: int| 0 <= i < boots.len() ==> #[trigger] boots[i] is None
}

/// Whether a side boots from a ROM and a capture of it.
pub open spec fn boots_from(side: BootSide, rom: Seq<u8>, boot: Option<Vec<u8>>) -> bool {
    &&& boot matches Some(b)
    &&& unpacked_blob(b@) matches Some(blob)
    &&& side.rom@ == rom
    &&& side.state@ == blob.state
    &&& match side.save {
        Some(s) => blob.save == Some(s@),
        None => blob.save is None,
    }
}

/// Whether every capture reads.
pub open spec fn captures_read(boots: Seq<Option<Vec<u8>>>) -> bool {
    forall|i: int|
        0 <= i < boots.len() ==> (#[trigger] boots[i] matches Some(b) && unpacked_blob(
            b@,
        ) is Some)
}

impl BootConfig {
    /// How many sides have both a ROM and a place for a capture.
    pub open spec fn num_sides(&self) -> nat {
        if self.roms@.len() < self.boots@.len() {
            self.roms@.len()
        } else {
            self.boots@.len()
        }
    }

    pub fn num_players(&self) -> (n: usize)
        ensures
            n == self.roms@.len(),
    {
        self.roms.len()
    }

    /// The clock the link boots with.
    pub fn rtc(&self) -> (micros: u64)
        ensures
            micros == (match self.rtc_unix_micros {
                Some(t) => t,
                None => DEFAULT_RTC_UNIX_MICROS,
            }),
    {
        match self.rtc_unix_micros {
            Some(t) => t,
            None => DEFAULT_RTC_UNIX_MICROS,
        }
    }

    /// How to boot a link poised at tick 0: from the recorded plug-in captures
    /// when the replay carries them, by a hard reset otherwise. Either way the
    /// recording's tick 0 is exactly this state.
    pub fn boot(&self) -> (plan: Result<BootPlan, BootError>)
        ensures
            match plan {
                Ok(BootPlan::Captured(sides)) => {
                    &&& all_captured(self.boots@)
                    &&& sides@.len() == self.num_sides()
                    &&& forall|i: int|
                        0 <= i < sides@.len() ==> boots_from(
                            #[trigger] sides@[i],
                            self.roms@[i]@,
                            self.boots@[i],
                        )
                },
                Ok(BootPlan::PowerOn(roms)) => {
                    &&& !all_captured(self.boots@)
                    &&& none_captured(self.boots@)
                    &&& roms@.len() == self.roms@.len()
                    &&& forall|i: int|
                        0 <= i < roms@.len() ==> (#[trigger] roms@[i])@ == self.roms@[i]@
                },
                Err(BootError::MixedSides) => !all_captured(self.boots@) && !none_captured(
                    self.boots@,
                ),
                Err(BootError::BadCapture) => all_captured(self.boots@) && !captures_read(
                    self.boots@.take(self.num_sides() as int),
                ),
            },
    {
        let n: usize = self.boots.len();
        let mut captured: usize = 0;
        let mut i: usize = 0;
        while i < n
            invariant
                i <= n,
                n == self.boots@.len(),
                captured <= i,
                captured == i <==> forall|k: int| 0 <= k < i ==> #[trigger] self.boots@[k] is Some,
                captured == 0 <==> forall|k: int| 0 <= k < i ==> #[trigger] self.boots@[k] is None,
            decreases n - i,
        {
            let ghost before = captured;
            if self.boots[i].is_some() {
                captured = captured + 1;
                assert(self.boots@[i as int] is Some);
            } else {
                assert(self.boots@[i as int] is None);
            }
            i = i + 1;
        }
        if captured == n {
            let mut sides: Vec<BootSide> = Vec::new();
            let mut i: usize = 0;
            while i < n && i < self.roms.len()
                invariant
                    i <= n,
                    i <= self.roms@.len(),
                    n == self.boots@.len(),
                    all_captured(self.boots@),
                    sides@.len() == i,
                    forall|k: int|
                        0 <= k < i ==> boots_from(
                            #[trigger] sides@[k],
                            self.roms@[k]@,
                            self.boots@[k],
                        ),
                decreases n - i,
            {
                assert(self.boots@[i as int] is Some);
                match &self.boots[i] {
                    None => {
                        return Err(BootError::BadCapture);
                    },
                    Some(b) => {
                        match BootBlob::decode(b.as_slice()) {
                            None => {
                                assert(self.boots@.take(self.num_sides() as int)[i as int]
                                    == self.boots@[i as int]);
                                return Err(BootError::BadCapture);
                            },
                            Some(blob) => {
                                let side = BootSide {
                                    rom: crate::bytes::to_vec(self.roms[i].as_slice()),
                                    save: blob.save,
                                    state: blob.state,
                                };
                                sides.push(side);
                            },
                        }
                    },
                }
                i = i + 1;
            }
            return Ok(BootPlan::Captured(sides));
        }
        if captured != 0 {
            return Err(BootError::MixedSides);
        }
        let mut roms: Vec<Vec<u8>> = Vec::new();
        let mut i: usize = 0;
        while i < self.roms.len()
            invariant
                i <= self.roms@.len(),
                roms@.len() == i,
                forall|k: int| 0 <= k < i ==> (#[trigger] roms@[k])@ == self.roms@[k]@,
            decreases self.roms@.len() - i,
        {
            roms.push(crate::bytes::to_vec(self.roms[i].as_slice()));
            i = i + 1;
        }
        Ok(BootPlan::PowerOn(roms))
    }
}

// ---------------------------------------------------------------------
// The cursor
// ---------------------------------------------------------------------

/// The recorded input stream and a cursor over it.
#[derive(Debug)]
pub struct Playback {
    pub inputs: Vec<Vec<u32>>,
    pub cursor: u32,
}

impl Playback {
    /// A tick for every input row.
    pub open spec fn wf(&self) -> bool {
        self.inputs@.len() <= u32::MAX
    }

    pub fn new(inputs: Vec<Vec<u32>>) -> (p: Playback)
        ensures
            p.inputs == inputs,
            p.cursor == 0,
    {
        Playback { inputs, cursor: 0 }
    }

    /// Input rows consumed so far = the playhead tick.
    pub fn cursor(&self) -> (c: u32)
        ensures
            c == self.cursor,
    {
        self.cursor
    }

    pub fn total(&self) -> (n: u32)
        requires
            self.wf(),
        ensures
            n == self.inputs@.len(),
    {
        self.inputs.len() as u32
    }

    pub fn at_end(&self) -> (b: bool)
        requires
            self.wf(),
        ensures
            b == (self.cursor >= self.inputs@.len()),
    {
        self.cursor >= self.total()
    }

    /// The next recorded input row, for the link to run; nothing at the end of
    /// the stream.
    pub fn step(&mut self) -> (row: Option<Vec<u32>>)
        requires
            old(self).wf(),
        ensures
            final(self).inputs == old(self).inputs,
            match row {
                Some(row) => {
                    &&& old(self).cursor < old(self).inputs@.len()
                    &&& row@ == old(self).inputs@[old(self).cursor as int]@
                    &&& final(self).cursor == old(self).cursor + 1
                },
                None => old(self).cursor >= old(self).inputs@.len() && final(self).cursor == old(
                    self,
                ).cursor,
            },
    {
        let at: usize = self.cursor as usize;
        if self.cursor >= self.total() {
            return None;
        }
        let row = copy_row(&self.inputs[at]);
        self.cursor = self.cursor + 1;
        Some(row)
    }

    /// The link was restored to a snapshot at `tick`.
    pub fn load(&mut self, tick: u32)
        ensures
            final(self).inputs == old(self).inputs,
            final(self).cursor == tick,
    {
        self.cursor = tick;
    }
}

fn copy_row(row: &Vec<u32>) -> (c: Vec<u32>)
    ensures
        c@ == row@,
{
    let mut c: Vec<u32> = Vec::new();
    let mut i: usize = 0;
    while i < row.len()
        invariant
            i <= row@.len(),
            c@ == row@.take(i as int),
        decreases row@.len() - i,
    {
        c.push(row[i]);
        i = i + 1;
        assert(row@.take(i as int) =~= row@.take(i - 1).push(row@[i - 1]));
    }
    assert(row@.take(i as int) =~= row@);
    c
}

// ---------------------------------------------------------------------
// Starting
// ---------------------------------------------------------------------

/// What a playback session starts from.
#[derive(Debug)]
pub struct PlaybackArgs {
    pub replay: Replay,
    /// Per player, the ROM bytes (resolved from the library by the replay's
    /// per-player CRC32s).
    pub roms: Vec<Vec<u8>>,
}

/// A playback session, ready to boot. Snapshots are kept as `S`.
#[derive(Debug)]
pub struct PlaybackSetup<S> {
    pub boot: BootConfig,
    pub playback: Playback,
    /// Presents the recorder's screen first.
    pub shared: SharedSession,
    /// Who recorded, as the recording says.
    pub local_player: usize,
    pub nicks: Vec<String>,
    pub total_ticks: u32,
    pub snapshots: SnapshotStore<S>,
    pub rewind: RewindRing<S>,
    pub seek: SeekController,
    /// How many ticks were prefetched.
    pub prefetch_progress: u32,
}

/// What a list of nicks says of the players of a recording.
pub open spec fn nicks_of(nicks: Seq<String>, m: Metadata) -> bool {
    nicks.len() == m.players@.len() && forall|i: int|
        0 <= i < nicks.len() ==> (#[trigger] nicks[i])@ == m.players@[i].nick@
}

/// Get a playback session ready: nothing captured, nothing sought, and the
/// keyframe interval budgeted by the recording's length.
pub fn start<S>(args: PlaybackArgs) -> (setup: PlaybackSetup<S>)
    requires
        args.roms@.len() == args.replay.metadata.players@.len(),
        args.roms@.len() >= 1,
    ensures
        setup.boot.boots@.len() == args.roms@.len(),
        setup.boot.roms == args.roms,
        setup.boot.rtc_unix_micros == args.replay.metadata.rtc_unix_micros,
        forall|i: int|
            0 <= i < setup.boot.boots@.len() ==> crate::replay::blob_view(
                #[trigger] setup.boot.boots@[i],
            ) == crate::replay::blob_view(args.replay.metadata.players@[i].boot),
        setup.playback.inputs == args.replay.inputs,
        setup.playback.cursor == 0,
        setup.shared.is_fresh(
            0,
            if args.replay.metadata.local_player < args.roms@.len() {
                args.replay.metadata.local_player as usize
            } else {
                (args.roms@.len() - 1) as usize
            },
        ),
        setup.local_player == args.replay.metadata.local_player,
        nicks_of(setup.nicks@, args.replay.metadata),
        setup.total_ticks == args.replay.inputs@.len() as u32,
        setup.snapshots.wf(),
        setup.snapshots.entries@.len() == 0,
        setup.snapshots.interval == keyframe_interval(setup.total_ticks, args.roms@.len()),
        setup.rewind.wf(),
        setup.rewind.entries@.len() == 0,
        setup.rewind.anchor == 0,
        setup.rewind.keyframe_interval == KEYFRAME_INTERVAL_MIN,
        setup.seek == (SeekController {
            target: 0,
            dirty: false,
            chasing: false,
            resume: false,
            cancel: false,
        }),
        setup.prefetch_progress == 0,
{
    let n: usize = args.roms.len();
    let m = args.replay.metadata;
    let local: usize = m.local_player as usize;
    let view: usize = if local < n {
        local
    } else {
        n - 1
    };
    let mut boots: Vec<Option<Vec<u8>>> = Vec::new();
    let mut nicks: Vec<String> = Vec::new();
    let mut i: usize = 0;
    while i < m.players.len()
        invariant
            i <= m.players@.len(),
            boots@.len() == i,
            nicks@.len() == i,
            forall|k: int|
                0 <= k < i ==> crate::replay::blob_view(#[trigger] boots@[k])
                    == crate::replay::blob_view(m.players@[k].boot),
            forall|k: int| 0 <= k < i ==> (#[trigger] nicks@[k])@ == m.players@[k].nick@,
        decreases m.players@.len() - i,
    {
        let p = &m.players[i];
        let boot: Option<Vec<u8>> = match &p.boot {
            Some(b) => Some(crate::bytes::to_vec(b.as_slice())),
            None => None,
        };
        boots.push(boot);
        nicks.push(p.nick.clone());
        i = i + 1;
    }
    let total_ticks: u32 = #[verifier::truncate] (args.replay.inputs.len() as u32);
    let mut shared = SharedSession::new(0);
    shared.view_player = view;
    PlaybackSetup {
        boot: BootConfig { roms: args.roms, boots, rtc_unix_micros: m.rtc_unix_micros },
        playback: Playback::new(args.replay.inputs),
        shared,
        local_player: local,
        nicks,
        total_ticks,
        snapshots: SnapshotStore::new(total_ticks, n),
        rewind: RewindRing::new(n, KEYFRAME_INTERVAL_MIN),
        seek: SeekController::new(),
        prefetch_progress: 0,
    }
}

/// The link could not be booted: the session ends.
pub fn boot_failed(shared: &mut SharedSession, why: &str)
    ensures
        *final(shared) == (SharedSession {
            end: final(shared).end,
            fps_target: 0,
            ..*old(shared)
        }),
        match old(shared).end {
            None => final(shared).end matches Some(SessionEnd::Error(t)) && t@
                == "failed to boot link: "@ + why@,
            Some(_) => final(shared).end == old(shared).end,
        },
{
    let mut t = "failed to boot link: ".to_owned();
    t.append(why);
    shared.finish(SessionEnd::Error(t));
}

/// Which of a snapshot's frames to show: the viewed player's, or the last
/// where there are fewer; none where it is blank.
pub fn shown_frame(view_player: usize, framebuffers: &Vec<Vec<u8>>) -> (i: Option<usize>)
    requires
        framebuffers@.len() >= 1,
    ensures
        ({
            let at = if view_player < framebuffers@.len() {
                view_player as int
            } else {
                framebuffers@.len() - 1
            };
            match i {
                Some(i) => i == at && framebuffers@[at]@.len() > 0,
                None => framebuffers@[at]@.len() == 0,
            }
        }),
{
    let at: usize = if view_player < framebuffers.len() {
        view_player
    } else {
        framebuffers.len() - 1
    };
    if framebuffers[at].len() > 0 {
        Some(at)
    } else {
        None
    }
}

/// Blit a captured snapshot's frame for the viewed player into the display
/// surface, without emulation.
pub fn publish_snapshot(shared: &mut SharedSession, framebuffers: &Vec<Vec<u8>>)
    requires
        framebuffers@.len() >= 1,
    ensures
        ({
            let at = if old(shared).view_player < framebuffers@.len() {
                old(shared).view_player as int
            } else {
                framebuffers@.len() - 1
            };
            if framebuffers@[at]@.len() > 0 {
                &&& final(shared).vbuf@ == framebuffers@[at]@
                &&& final(shared).vbuf_rev as int == (old(shared).vbuf_rev + 1)
                    % 0x1_0000_0000_0000_0000
                &&& *final(shared) == (SharedSession {
                    vbuf: final(shared).vbuf,
                    vbuf_rev: final(shared).vbuf_rev,
                    ..*old(shared)
                })
            } else {
                *final(shared) == *old(shared)
            }
        }),
{
    match shown_frame(shared.view_player, framebuffers) {
        Some(i) => {
            shared.publish_video(framebuffers[i].as_slice());
        },
        None => {},
    }
}

// ---------------------------------------------------------------------
// The drive loop
// ---------------------------------------------------------------------

/// The drive loop's own state.
#[derive(Debug, Clone, Copy, PartialEq, Eq, Structural)]
pub struct Drive {
    pub was_paused: bool,
}

/// What a round of the drive loop does.
#[derive(Debug, Clone, Copy, PartialEq, Eq, Structural)]
pub enum DriveAction {
    /// The session has ended.
    Quit,
    /// Hold still: silence the audio where it has not been, and start pacing
    /// afresh.
    Hold { reset_audio: bool },
    /// Run one tick at a speed, in percent.
    Run { reset_audio: bool, reset_pacer: bool, speed_percent: u32 },
    /// The recording is over, and playback paused.
    End { reset_audio: bool, reset_pacer: bool, speed_percent: u32 },
}

/// The speed playback runs at, in percent.
pub open spec fn effective_speed(speed: u32) -> u32 {
    if speed < MIN_SPEED {
        MIN_SPEED
    } else {
        speed
    }
}

impl Drive {
    pub fn new() -> (d: Drive)
        ensures
            !d.was_paused,
    {
        Drive { was_paused: false }
    }

    /// Decide one round. A pause silences the audio once when it begins and
    /// once when it ends; the pace is taken up afresh after it, and wherever a
    /// resume asked for it.
    pub fn round(&mut self, shared: &mut SharedSession, at_end: bool) -> (a: DriveAction)
        ensures
            ({
                let was = old(self).was_paused;
                let s = *old(shared);
                let speed_percent = effective_speed(s.speed);
                if s.quit {
                    &&& a == DriveAction::Quit
                    &&& *final(self) == *old(self)
                    &&& *final(shared) == (SharedSession {
                        end: if s.end is None {
                            Some(SessionEnd::LocalQuit)
                        } else {
                            s.end
                        },
                        fps_target: 0,
                        ..s
                    })
                } else if s.paused {
                    &&& a == DriveAction::Hold { reset_audio: !was }
                    &&& final(self).was_paused
                    &&& *final(shared) == (SharedSession { fps_target: 0, ..s })
                } else {
                    &&& !final(self).was_paused
                    &&& if at_end {
                        &&& a == DriveAction::End {
                            reset_audio: was,
                            reset_pacer: was || s.pace_reset_requested,
                            speed_percent,
                        }
                        &&& *final(shared) == (SharedSession {
                            pace_reset_requested: false,
                            paused: true,
                            ..s
                        })
                    } else {
                        &&& a == DriveAction::Run {
                            reset_audio: was,
                            reset_pacer: was || s.pace_reset_requested,
                            speed_percent,
                        }
                        &&& *final(shared) == (SharedSession { pace_reset_requested: false, ..s })
                    }
                }
            }),
    {
        if shared.quit {
            shared.finish(SessionEnd::LocalQuit);
            return DriveAction::Quit;
        }
        let was = self.was_paused;
        if shared.paused {
            self.was_paused = true;
            shared.set_fps_target(0);
            return DriveAction::Hold { reset_audio: !was };
        }
        self.was_paused = false;
        let reset = shared.take_pace_reset();
        let speed_percent: u32 = if shared.speed < MIN_SPEED {
            MIN_SPEED
        } else {
            shared.speed
        };
        if at_end {
            shared.paused = true;
            return DriveAction::End { reset_audio: was, reset_pacer: was || reset, speed_percent };
        }
        DriveAction::Run { reset_audio: was, reset_pacer: was || reset, speed_percent }
    }
}

/// What to capture after a tick: a keyframe where it fills a gap, and a rewind
/// state at every `rewind_interval`th tick.
pub fn captures_due<S>(store: &SnapshotStore<S>, tick: u32, rewind_interval: u32) -> (due: (
    bool,
    bool,
))
    requires
        store.wf(),
        rewind_interval > 0,
    ensures
        due.0 == gap_at(store.entries@, tick, store.interval),
        due.1 == (tick % rewind_interval == 0),
{
    (store.snapshot_needed(tick), tick % rewind_interval == 0)
}

/// Keep a capture of a chase: as a keyframe where it fills a gap, and in the
/// ring in any case.
pub fn keep_capture<S>(
    store: &mut SnapshotStore<S>,
    rewind: &mut RewindRing<S>,
    tick: u32,
    keyframe: S,
    state: S,
)
    requires
        old(store).wf(),
        old(rewind).wf(),
    ensures
        final(store).wf(),
        final(rewind).wf(),
        final(store).interval == old(store).interval,
        final(store).entries@ == (if gap_at(old(store).entries@, tick, old(store).interval) {
            put(old(store).entries@, tick, keyframe)
        } else {
            old(store).entries@
        }),
        final(rewind).anchor == (if old(rewind).anchor < tick {
            tick
        } else {
            old(rewind).anchor
        }),
        final(rewind).entries@ == ring_after(
            old(rewind).entries@,
            final(rewind).anchor,
            tick,
            state,
            old(rewind).keyframe_interval,
            old(rewind).max_entries as nat,
        ),
{
    if store.snapshot_needed(tick) {
        store.push(tick, keyframe);
    }
    rewind.insert(tick, state);
}

/// What the background prefetch does next.
#[derive(Debug, Clone, Copy, PartialEq, Eq, Structural)]
pub enum PrefetchAction {
    /// Stop: cancelled, or the stream is done.
    Stop,
    /// Run the row at this position, which lands on this tick, and keep a
    /// keyframe there where one is due.
    Run { row: u32, tick: u32, keyframe: bool },
}

/// The prefetch runs the whole stream in order, with a keyframe wherever one is
/// due.
pub fn prefetch_next<S>(store: &SnapshotStore<S>, done: u32, total: u32, cancelled: bool) -> (a:
    PrefetchAction)
    requires
        store.wf(),
        done <= total,
    ensures
        a == (if cancelled || done == total {
            PrefetchAction::Stop
        } else {
            PrefetchAction::Run {
                row: done,
                tick: (done + 1) as u32,
                keyframe: gap_at(store.entries@, (done + 1) as u32, store.interval),
            }
        }),
{
    if cancelled || done == total {
        PrefetchAction::Stop
    } else {
        let tick: u32 = done + 1;
        PrefetchAction::Run { row: done, tick, keyframe: store.snapshot_needed(tick) }
    }
}

} // verus!
