//! The single-threaded session host. Two sources funnel into one pump: the
//! animation frame while the tab is visible (ticks, audio, picture), and the
//! audio worklet's queue reports (ticks and audio only), which keep a netplay
//! session at full speed in the background. The pump sequences input, ticks,
//! audio, autosave, telemetry and picture; each step's decision is made here.
use vstd::prelude::*;
use std::collections::VecDeque;
use crate::input::{taken, Capture, CaptureView};
use crate::library::{crc32, crc32_of};
use crate::net::protocol::{packed_blob, unpacked_blob, BootBlob, BootBlobView};
use crate::session::local::{is_solo, LocalArgs, LocalSession, Machine};
use crate::session::netplay::{
    boots_readable, startable, started, Captured, NetplayArgs, NetplaySession,
};
use crate::session::{
    end_unplugs, sampled, Handoff, LinkKind, MetricSample, MetricSampleView, SessionDescriptor,
    SessionEnd, SessionKind, SharedSession, HISTORY_LEN,
};
use crate::text::{decimal, push_decimal, same_text};

pub mod laws;

verus! {

/// How often a solo cart's SRAM is written back.
pub const AUTOSAVE_MS: u64 = 60_000;

/// The pace of a solo session while fast-forward is held, in percent.
pub const FAST_FORWARD: u32 = 300;

/// The pace of a solo session otherwise, in percent.
pub const FULL_SPEED: u32 = 100;

/// What a pump was fired by.
#[derive(Debug, Clone, Copy, PartialEq, Eq, Structural)]
pub enum PumpSource {
    Raf,
    Audio,
}

/// A running session of either kind, as the pump and the UI see it.
#[derive(Debug)]
pub struct Session {
    pub shared: SharedSession,
    pub descriptor: SessionDescriptor,
}

/// What an optional text says.
pub open spec fn maybe_text(t: Option<String>) -> Option<Seq<char>> {
    match t {
        Some(t) => Some(t@),
        None => None,
    }
}

/// A save file to be written: its name and what goes into it.
#[derive(Debug)]
pub struct SaveWrite {
    pub name: String,
    pub bytes: Vec<u8>,
}

/// The session host.
#[derive(Debug)]
pub struct Runtime {
    pub session: Option<Session>,
    pub presented_rev: u64,
    /// Keys held by the on-screen touch overlay, joined into every pump
    /// alongside the mapped keyboard and gamepad state.
    pub touch_keys: u32,
    /// Whether there is somewhere to write saves to.
    pub has_storage: bool,
    /// The telemetry panel's sample ring, captured per netplay frame.
    pub metric_history: VecDeque<MetricSample>,
    /// The save file the running cart persists into, chosen at boot; survives
    /// plug-in and unplug swaps (same cart), cleared on close.
    pub save_file: Option<String>,
    /// The save file SRAM last actually persisted into, kept across close so
    /// the UI can move a fresh save's pick onto the file the session created.
    pub last_persisted_save: Option<String>,
    /// CRC of the last persisted SRAM, so the autosave skips no-ops.
    pub saved_crc: Option<u32>,
    pub last_autosave_ms: u64,
    /// The previous session's end, kept readable after teardown so the UI can
    /// say why.
    pub last_end: Option<SessionEnd>,
    /// The gamepad inputs active on the previous capture scan: binding capture
    /// fires on edges, and the first scan only seeds this baseline so an
    /// already-held input can't bind itself.
    pub capture_prev: Option<Vec<u32>>,
    /// The overlays over the session.
    pub overlays: Overlays,
    /// Bumped on session start, swap and close.
    pub epoch: u64,
    /// Bumped once per visible pump that changed anything.
    pub frame_rev: u64,
}

/// What a list of samples says.
pub open spec fn history_view(h: Seq<MetricSample>) -> Seq<MetricSampleView> {
    h.map_values(|m: MetricSample| m@)
}

// ---------------------------------------------------------------------
// Saving
// ---------------------------------------------------------------------

impl Runtime {
    pub fn new() -> (r: Runtime)
        ensures
            r.session is None,
            r.presented_rev == 0,
            r.touch_keys == 0,
            !r.has_storage,
            r.metric_history@.len() == 0,
            r.save_file is None,
            r.last_persisted_save is None,
            r.saved_crc is None,
            r.last_autosave_ms == 0,
            r.last_end is None,
            r.capture_prev is None,
            r.overlays == (Overlays { menu_open: false, panel_open: false }),
            r.epoch == 0,
            r.frame_rev == 0,
    {
        Runtime {
            session: None,
            presented_rev: 0,
            touch_keys: 0,
            has_storage: false,
            metric_history: VecDeque::new(),
            save_file: None,
            last_persisted_save: None,
            saved_crc: None,
            last_autosave_ms: 0,
            last_end: None,
            capture_prev: None,
            overlays: Overlays { menu_open: false, panel_open: false },
            epoch: 0,
            frame_rev: 0,
        }
    }

    /// Whether SRAM can be written back.
    pub open spec fn can_persist(self) -> bool {
        self.has_storage && self.save_file is Some
    }

    /// SRAM whose CRC is `crc` is to be persisted into the chosen save file:
    /// what to write, which is nothing where it is what was written last.
    pub fn persist_checked(&mut self, bytes: Vec<u8>, crc: u32) -> (w: Option<SaveWrite>)
        ensures
            match w {
                Some(w) => {
                    &&& old(self).can_persist()
                    &&& old(self).saved_crc != Some(crc)
                    &&& maybe_text(old(self).save_file) == Some(w.name@)
                    &&& w.bytes == bytes
                },
                None => !old(self).can_persist() || old(self).saved_crc == Some(crc),
            },
            final(self).saved_crc == (if old(self).can_persist() {
                Some(crc)
            } else {
                old(self).saved_crc
            }),
            maybe_text(final(self).last_persisted_save) == (if old(self).can_persist() {
                maybe_text(old(self).save_file)
            } else {
                maybe_text(old(self).last_persisted_save)
            }),
            *final(self) == (Runtime {
                saved_crc: final(self).saved_crc,
                last_persisted_save: final(self).last_persisted_save,
                ..*old(self)
            }),
    {
        if !self.has_storage {
            return None;
        }
        match &self.save_file {
            None => None,
            Some(name) => {
                let name: String = name.as_str().to_owned();
                self.last_persisted_save = Some(name.as_str().to_owned());
                match self.saved_crc {
                    Some(c) => {
                        if c == crc {
                            return None;
                        }
                    },
                    None => {},
                }
                self.saved_crc = Some(crc);
                Some(SaveWrite { name, bytes })
            },
        }
    }

    /// Persist SRAM into the chosen save file: what to write. Nothing where
    /// there is none, or it is unchanged since the last write.
    pub fn persist_sram(&mut self, bytes: Option<Vec<u8>>) -> (w: Option<SaveWrite>)
        ensures
            bytes is None ==> w is None && *final(self) == *old(self),
            bytes matches Some(b) ==> {
                let crc = crc32_of(b@);
                &&& match w {
                    Some(w) => {
                        &&& old(self).can_persist()
                        &&& old(self).saved_crc != Some(crc)
                        &&& maybe_text(old(self).save_file) == Some(w.name@)
                        &&& w.bytes == b
                    },
                    None => !old(self).can_persist() || old(self).saved_crc == Some(crc),
                }
                &&& final(self).saved_crc == (if old(self).can_persist() {
                    Some(crc)
                } else {
                    old(self).saved_crc
                })
                &&& maybe_text(final(self).last_persisted_save) == (if old(self).can_persist() {
                    maybe_text(old(self).save_file)
                } else {
                    maybe_text(old(self).last_persisted_save)
                })
            },
            *final(self) == (Runtime {
                saved_crc: final(self).saved_crc,
                last_persisted_save: final(self).last_persisted_save,
                ..*old(self)
            }),
    {
        match bytes {
            None => None,
            Some(b) => {
                let crc: u32 = crc32(b.as_slice());
                self.persist_checked(b, crc)
            },
        }
    }

    /// The save file SRAM last persisted into, taken once. Outlives the session
    /// so the UI can see it after close.
    pub fn take_persisted_save(&mut self) -> (n: Option<String>)
        ensures
            n == old(self).last_persisted_save,
            *final(self) == (Runtime { last_persisted_save: None, ..*old(self) }),
    {
        let mut n: Option<String> = None;
        std::mem::swap(&mut n, &mut self.last_persisted_save);
        n
    }
}

// ---------------------------------------------------------------------
// Sessions come and go
// ---------------------------------------------------------------------

/// Why a running machine cannot be captured for a plug-in.
#[derive(Debug, Clone, Copy, PartialEq, Eq, Structural)]
pub enum CaptureError {
    GameEnded,
    NotSolo,
    /// The machine could not be reached.
    Unavailable,
}

/// What is said of it.
pub open spec fn capture_error_text(e: CaptureError) -> Seq<char> {
    match e {
        CaptureError::GameEnded => "the game ended"@,
        CaptureError::NotSolo => "this session's machine can't be captured"@,
        CaptureError::Unavailable => "machine unavailable"@,
    }
}

impl CaptureError {
    pub fn message(self) -> (t: &'static str)
        ensures
            t@ == capture_error_text(self),
    {
        match self {
            CaptureError::GameEnded => "the game ended",
            CaptureError::NotSolo => "this session's machine can't be captured",
            CaptureError::Unavailable => "machine unavailable",
        }
    }
}

/// Why the cable does not plug in.
#[derive(Debug, Clone, Copy, PartialEq, Eq, Structural)]
pub enum PlugInError {
    GameEnded,
    /// A side's capture cannot be read.
    BadCapture,
}

impl PlugInError {
    /// What is said of it; an unreadable capture is its reader's to explain.
    pub fn message(self) -> (t: Option<&'static str>)
        ensures
            match self {
                PlugInError::GameEnded => t matches Some(t) && t@
                    == "the game ended before the cable plugged in"@,
                PlugInError::BadCapture => t is None,
            },
    {
        match self {
            PlugInError::GameEnded => Some("the game ended before the cable plugged in"),
            PlugInError::BadCapture => None,
        }
    }
}

/// Whether a session is running, and of which kind.
pub open spec fn running(session: Option<Session>) -> Option<SessionKind> {
    match session {
        Some(s) => Some(s.descriptor.kind),
        None => None,
    }
}

/// What a session that ended leaves to be done.
#[derive(Debug)]
pub struct EndPlan {
    pub end: SessionEnd,
    /// The unplug snapshot, durable whether or not the continuation succeeds.
    pub write: Option<SaveWrite>,
    /// A netplay end that leaves a live machine behind is a cable unplug: the
    /// machine to continue solo, and the notice for the cable panel.
    pub continuation: Option<Continuation>,
}

/// A machine that goes on after its cable was unplugged.
#[derive(Debug)]
pub struct Continuation {
    pub handoff: Handoff,
    pub rom_crc32: u32,
    pub reason: String,
}

/// The cable-panel one-liner for an unplug that continued solo.
pub open spec fn unplug_text(end: SessionEnd) -> Seq<char> {
    match end {
        SessionEnd::PeerQuit { player } => "Player "@ + decimal(player as nat + 1) + " unplugged."@,
        SessionEnd::PeerDisconnected { player } => "Connection to player "@ + decimal(
            player as nat + 1,
        ) + " lost."@,
        SessionEnd::Desync { tick } => "Desync at tick "@ + decimal(tick as nat)
            + " — cable unplugged."@,
        _ => "Unplugged."@,
    }
}

/// Whether the player an end names, if any, can be counted from one.
pub open spec fn end_ok(end: SessionEnd) -> bool {
    match end {
        SessionEnd::PeerQuit { player } => player < usize::MAX,
        SessionEnd::PeerDisconnected { player } => player < usize::MAX,
        _ => true,
    }
}

/// The cable-panel one-liner for an unplug that continued solo.
pub fn unplug_reason(end: &SessionEnd) -> (t: String)
    requires
        end_ok(*end),
    ensures
        t@ == unplug_text(*end),
{
    match end {
        SessionEnd::PeerQuit { player } => {
            let mut t = "Player ".to_owned();
            push_decimal(&mut t, *player as u64 + 1);
            t.append(" unplugged.");
            t
        },
        SessionEnd::PeerDisconnected { player } => {
            let mut t = "Connection to player ".to_owned();
            push_decimal(&mut t, *player as u64 + 1);
            t.append(" lost.");
            t
        },
        SessionEnd::Desync { tick } => {
            let mut t = "Desync at tick ".to_owned();
            push_decimal(&mut t, *tick as u64);
            t.append(" — cable unplugged.");
            t
        },
        _ => "Unplugged.".to_owned(),
    }
}

fn copy_end(end: &SessionEnd) -> (c: SessionEnd)
    ensures
        same_end(c, *end),
{
    match end {
        SessionEnd::LocalQuit => SessionEnd::LocalQuit,
        SessionEnd::Unplugged => SessionEnd::Unplugged,
        SessionEnd::PeerQuit { player } => SessionEnd::PeerQuit { player: *player },
        SessionEnd::PeerDisconnected { player } => SessionEnd::PeerDisconnected {
            player: *player,
        },
        SessionEnd::Desync { tick } => SessionEnd::Desync { tick: *tick },
        SessionEnd::Error(t) => SessionEnd::Error(t.as_str().to_owned()),
    }
}

/// Whether two ends say the same.
pub open spec fn same_end(a: SessionEnd, b: SessionEnd) -> bool {
    match (a, b) {
        (SessionEnd::Error(x), SessionEnd::Error(y)) => x@ == y@,
        _ => a == b,
    }
}

/// The SRAM a session's handoff carries.
pub open spec fn snapshot_of(session: Option<Session>) -> Option<Seq<u8>> {
    match session {
        Some(s) => match s.shared.handoff {
            Some(h) => match h.save {
                Some(b) => Some(b@),
                None => None,
            },
            None => None,
        },
        None => None,
    }
}

/// The end a session that is over has: a local quit where none is recorded.
pub open spec fn recorded_end(shared: SharedSession) -> SessionEnd {
    match shared.end {
        Some(e) => e,
        None => SessionEnd::LocalQuit,
    }
}

/// Whether SRAM is to be written back: there is somewhere to, and it changed.
pub open spec fn writes_back(rt: Runtime, sram: Option<Vec<u8>>) -> bool {
    rt.can_persist() && (sram matches Some(b) && rt.saved_crc != Some(crc32_of(b@)))
}

/// The save file SRAM last persisted into, once this was offered.
pub open spec fn persisted_into(rt: Runtime, sram: Option<Vec<u8>>) -> Option<Seq<char>> {
    if rt.can_persist() && sram is Some {
        maybe_text(rt.save_file)
    } else {
        maybe_text(rt.last_persisted_save)
    }
}

/// The epoch once the running session, if any, is closed.
pub open spec fn after_close(rt: Runtime) -> u64 {
    if rt.session is Some {
        ((rt.epoch + 1) % 0x1_0000_0000_0000_0000) as u64
    } else {
        rt.epoch
    }
}

impl Runtime {
    /// Swap in a freshly booted session. Nothing is presented until it
    /// publishes its first frame: the canvas keeps the outgoing session's image
    /// across plug-in and unplug swaps.
    pub fn adopt_session(&mut self, session: Session)
        ensures
            final(self).session == Some(session),
            final(self).metric_history@.len() == 0,
            final(self).last_end is None,
            final(self).presented_rev == 0,
            final(self).epoch as int == (old(self).epoch + 1) % 0x1_0000_0000_0000_0000,
            *final(self) == (Runtime {
                session: final(self).session,
                metric_history: final(self).metric_history,
                last_end: None,
                presented_rev: 0,
                epoch: final(self).epoch,
                ..*old(self)
            }),
    {
        self.metric_history = VecDeque::new();
        self.session = Some(session);
        self.last_end = None;
        self.presented_rev = 0;
        self.epoch = self.epoch.wrapping_add(1);
    }

    /// Close the running session, its cart's SRAM being `sram`: what is to be
    /// written back before the machine goes away. The menu closes with it.
    pub fn close_session(&mut self, sram: Option<Vec<u8>>) -> (w: Option<SaveWrite>)
        ensures
            match w {
                Some(w) => writes_back(*old(self), sram) && maybe_text(old(self).save_file) == Some(
                    w.name@,
                ) && sram == Some(w.bytes),
                None => !writes_back(*old(self), sram),
            },
            maybe_text(final(self).last_persisted_save) == persisted_into(*old(self), sram),
            final(self).epoch == after_close(*old(self)),
            *final(self) == (Runtime {
                session: None,
                save_file: None,
                saved_crc: None,
                last_persisted_save: final(self).last_persisted_save,
                overlays: menu_closed(old(self).overlays),
                epoch: final(self).epoch,
                ..*old(self)
            }),
    {
        let w = self.persist_sram(sram);
        self.save_file = None;
        self.saved_crc = None;
        self.overlays.menu_open = false;
        if self.session.is_some() {
            self.session = None;
            self.epoch = self.epoch.wrapping_add(1);
        }
        w
    }

    /// Get a fresh solo session ready from ROM bytes, closing the running one,
    /// whose cart's SRAM is `sram`. Returns what is to be written back, and the
    /// session to boot; once it is, it takes over by
    /// [`local_booted`](Runtime::local_booted).
    pub fn start_local(
        &mut self,
        sram: Option<Vec<u8>>,
        rom: Vec<u8>,
        save: Option<Vec<u8>>,
        link: LinkKind,
        rtc_unix_micros: u64,
    ) -> (r: (Option<SaveWrite>, LocalSession))
        ensures
            match r.0 {
                Some(w) => writes_back(*old(self), sram) && maybe_text(old(self).save_file) == Some(
                    w.name@,
                ) && sram == Some(w.bytes),
                None => !writes_back(*old(self), sram),
            },
            r.1.machine == (Machine {
                rom,
                save,
                state: None,
                adapter: None,
                rtc_unix_micros,
                link,
            }),
            r.1.shared.is_fresh(0, 0),
            is_solo(r.1.descriptor, crc32_of(rom@), link),
            final(self).saved_crc == (match save {
                Some(b) => Some(crc32_of(b@)),
                None => None,
            }),
            maybe_text(final(self).last_persisted_save) == persisted_into(*old(self), sram),
            final(self).epoch == after_close(*old(self)),
            *final(self) == (Runtime {
                session: None,
                save_file: None,
                saved_crc: final(self).saved_crc,
                last_persisted_save: final(self).last_persisted_save,
                overlays: menu_closed(old(self).overlays),
                epoch: final(self).epoch,
                ..*old(self)
            }),
    {
        let w = self.close_session(sram);
        let rom_crc32: u32 = crc32(rom.as_slice());
        self.saved_crc = match &save {
            Some(b) => Some(crc32(b.as_slice())),
            None => None,
        };
        let session = crate::session::local::start(
            LocalArgs { rom, rom_crc32, save, rtc_unix_micros, link },
        );
        (w, session)
    }

    /// A fresh solo session is booted. `save_file` is the save its cart persists
    /// back into (on quit and unplug, and by autosave); `None` disables
    /// persistence.
    pub fn local_booted(&mut self, session: Session, save_file: Option<String>, now_ms: u64)
        ensures
            final(self).session == Some(session),
            final(self).metric_history@.len() == 0,
            final(self).epoch as int == (old(self).epoch + 1) % 0x1_0000_0000_0000_0000,
            *final(self) == (Runtime {
                session: Some(session),
                save_file,
                last_persisted_save: None,
                last_autosave_ms: now_ms,
                metric_history: final(self).metric_history,
                last_end: None,
                presented_rev: 0,
                epoch: final(self).epoch,
                ..*old(self)
            }),
    {
        self.save_file = save_file;
        self.last_persisted_save = None;
        self.last_autosave_ms = now_ms;
        self.adopt_session(session);
    }

    /// Freeze the running solo machine so that it can be captured: the local
    /// half of the plug-in exchange. It stays frozen on exactly the captured
    /// state; a lobby failure resumes it, a successful plug-in replaces it.
    pub fn freeze(&mut self) -> (r: Result<(), CaptureError>)
        ensures
            match running(old(self).session) {
                None => r == Err::<(), _>(CaptureError::GameEnded) && *final(self) == *old(self),
                Some(SessionKind::Netplay) => r == Err::<(), _>(CaptureError::NotSolo)
                    && *final(self) == *old(self),
                Some(SessionKind::Local) => {
                    let s = old(self).session.unwrap();
                    &&& r is Ok
                    &&& *final(self) == (Runtime {
                        session: Some(
                            Session {
                                shared: SharedSession { paused: true, ..s.shared },
                                ..s
                            },
                        ),
                        ..*old(self)
                    })
                },
            },
    {
        match &mut self.session {
            None => Err(CaptureError::GameEnded),
            Some(s) => match s.descriptor.kind {
                SessionKind::Netplay => Err(CaptureError::NotSolo),
                SessionKind::Local => {
                    s.shared.paused = true;
                    Ok(())
                },
            },
        }
    }

    /// The encoded boot payload of a captured machine, at a wall clock. Only the
    /// host's clock survives, as the link's seed.
    pub fn boot_payload(captured: Option<Captured>, clock_unix_micros: u64) -> (r: Result<
        Option<Vec<u8>>,
        CaptureError,
    >)
        ensures
            match captured {
                None => r == Err::<Option<Vec<u8>>, _>(CaptureError::Unavailable),
                Some(c) => {
                    let blob = BootBlobView {
                        state: c.state@,
                        save: match c.save {
                            Some(s) => Some(s@),
                            None => None,
                        },
                        clock_unix_micros,
                    };
                    r is Ok && (r.unwrap() matches Some(b) && b@ == packed_blob(blob)
                        && unpacked_blob(b@) == Some(blob))
                },
            },
    {
        match captured {
            None => Err(CaptureError::Unavailable),
            Some(c) => {
                let blob = BootBlob { state: c.state, save: c.save, clock_unix_micros };
                Ok(blob.encode())
            },
        }
    }

    /// The cable plugs in: the netplay session to boot from the exchanged
    /// captures. Only a solo machine has a port for it; once the link is booted
    /// the session takes over by [`plugged_in`](Runtime::plugged_in).
    pub fn plug_in(&self, args: NetplayArgs, edges: &Vec<usize>, now: u64) -> (r: Result<
        NetplaySession,
        PlugInError,
    >)
        requires
            startable(args, edges@),
        ensures
            match r {
                Ok(s) => {
                    &&& running(self.session) == Some(SessionKind::Local)
                    &&& started(s, args, edges@, now)
                },
                Err(PlugInError::GameEnded) => running(self.session) != Some(SessionKind::Local),
                Err(PlugInError::BadCapture) => running(self.session) == Some(SessionKind::Local)
                    && !boots_readable(args.bundle.boots@),
            },
    {
        let solo = match &self.session {
            Some(s) => s.descriptor.kind == SessionKind::Local,
            None => false,
        };
        if !solo {
            return Err(PlugInError::GameEnded);
        }
        match crate::session::netplay::start(args, edges, now) {
            Some(s) => Ok(s),
            None => Err(PlugInError::BadCapture),
        }
    }

    /// The link is booted: its session takes over, and the menu closes.
    pub fn plugged_in(&mut self, session: Session)
        ensures
            final(self).metric_history@.len() == 0,
            final(self).epoch as int == (old(self).epoch + 1) % 0x1_0000_0000_0000_0000,
            *final(self) == (Runtime {
                session: Some(session),
                metric_history: final(self).metric_history,
                last_end: None,
                presented_rev: 0,
                overlays: menu_closed(old(self).overlays),
                epoch: final(self).epoch,
                ..*old(self)
            }),
    {
        self.adopt_session(session);
        self.overlays.menu_open = false;
    }

    /// The cable unplugs: the solo continuation of the local machine to boot,
    /// and the notice for the cable panel once it is.
    pub fn unplug_continue(c: Continuation) -> (r: (LocalSession, String))
        ensures
            r.0.machine == (Machine {
                rom: c.handoff.rom,
                save: c.handoff.save,
                state: Some(c.handoff.state),
                adapter: c.handoff.adapter,
                rtc_unix_micros: c.handoff.rtc_unix_micros,
                link: c.handoff.link,
            }),
            r.0.shared.is_fresh(0, 0),
            is_solo(r.0.descriptor, c.rom_crc32, c.handoff.link),
            r.1 == c.reason,
    {
        (crate::session::local::resume(c.handoff, c.rom_crc32), c.reason)
    }

    /// Pull the cable: the netplay session ends on the next tick and the
    /// machine continues solo from the teardown handoff.
    pub fn unplug(&mut self)
        ensures
            match old(self).session {
                None => *final(self) == *old(self),
                Some(s) => *final(self) == (Runtime {
                    session: Some(
                        Session { shared: SharedSession { unplug: true, ..s.shared }, ..s },
                    ),
                    ..*old(self)
                }),
            },
    {
        match &mut self.session {
            Some(s) => {
                s.shared.unplug = true;
            },
            None => {},
        }
    }

    pub fn set_present_delay(&mut self, delay: u32)
        ensures
            match old(self).session {
                None => *final(self) == *old(self),
                Some(s) => *final(self) == (Runtime {
                    session: Some(
                        Session { shared: SharedSession { present_delay: delay, ..s.shared }, ..s },
                    ),
                    ..*old(self)
                }),
            },
    {
        match &mut self.session {
            Some(s) => {
                s.shared.present_delay = delay;
            },
            None => {},
        }
    }

    /// The running session is over: what is to be done. Its handoff, if it
    /// left one, is taken.
    pub fn session_over(&mut self) -> (p: Option<EndPlan>)
        requires
            old(self).session matches Some(s) ==> end_ok(recorded_end(s.shared)),
        ensures
            p is Some == (old(self).session is Some),
            p matches Some(p) ==> {
                let s = old(self).session.unwrap();
                let end = recorded_end(s.shared);
                let unplugged = s.descriptor.kind == SessionKind::Netplay && end_unplugs(end);
                &&& same_end(p.end, end)
                &&& match p.continuation {
                    Some(c) => {
                        &&& unplugged
                        &&& s.shared.handoff == Some(c.handoff)
                        &&& c.rom_crc32 == (match s.descriptor.rom_crc32 {
                            Some(x) => x,
                            None => 0,
                        })
                        &&& c.reason@ == unplug_text(end)
                    },
                    None => !unplugged || s.shared.handoff is None,
                }
                &&& final(self).session == Some(
                    Session { shared: SharedSession { handoff: None, ..s.shared }, ..s },
                )
                &&& match p.write {
                    Some(w) => {
                        &&& old(self).can_persist()
                        &&& maybe_text(old(self).save_file) == Some(w.name@)
                        &&& s.shared.handoff matches Some(h) && h.save matches Some(b) && b@
                            == w.bytes@ && old(self).saved_crc != Some(crc32_of(b@))
                    },
                    None => !old(self).can_persist() || (s.shared.handoff matches Some(h)
                        ==> h.save matches Some(b) ==> old(self).saved_crc == Some(
                        crc32_of(b@),
                    )),
                }
            },
            final(self).saved_crc == (match snapshot_of(old(self).session) {
                Some(b) if old(self).can_persist() => Some(crc32_of(b)),
                _ => old(self).saved_crc,
            }),
            maybe_text(final(self).last_persisted_save) == (match snapshot_of(old(self).session) {
                Some(b) if old(self).can_persist() => maybe_text(old(self).save_file),
                _ => maybe_text(old(self).last_persisted_save),
            }),
            *final(self) == (Runtime {
                session: final(self).session,
                saved_crc: final(self).saved_crc,
                last_persisted_save: final(self).last_persisted_save,
                ..*old(self)
            }),
    {
        let mut handoff: Option<Handoff> = None;
        let kind: SessionKind;
        let end: SessionEnd;
        let rom_crc32: u32;
        match &mut self.session {
            None => {
                return None;
            },
            Some(s) => {
                end = match &s.shared.end {
                    Some(e) => copy_end(e),
                    None => SessionEnd::LocalQuit,
                };
                kind = s.descriptor.kind;
                rom_crc32 = match s.descriptor.rom_crc32 {
                    Some(c) => c,
                    None => 0,
                };
                std::mem::swap(&mut handoff, &mut s.shared.handoff);
            },
        }
        let snapshot: Option<Vec<u8>> = match &handoff {
            Some(h) => match &h.save {
                Some(b) => Some(crate::bytes::to_vec(b.as_slice())),
                None => None,
            },
            None => None,
        };
        let write = self.persist_sram(snapshot);
        let continuation = match handoff {
            Some(handoff) => {
                if kind == SessionKind::Netplay && end.unplugs() {
                    let reason = unplug_reason(&end);
                    Some(Continuation { handoff, rom_crc32, reason })
                } else {
                    None
                }
            },
            None => None,
        };
        Some(EndPlan { end, write, continuation })
    }

    /// The session that is over could not be continued: close it, its cart's
    /// SRAM being `sram`, and keep the reason readable until it is dismissed.
    pub fn close_over(&mut self, end: SessionEnd, sram: Option<Vec<u8>>) -> (w: Option<SaveWrite>)
        ensures
            match w {
                Some(w) => writes_back(*old(self), sram) && maybe_text(old(self).save_file) == Some(
                    w.name@,
                ) && sram == Some(w.bytes),
                None => !writes_back(*old(self), sram),
            },
            maybe_text(final(self).last_persisted_save) == persisted_into(*old(self), sram),
            final(self).epoch == after_close(*old(self)),
            *final(self) == (Runtime {
                session: None,
                save_file: None,
                saved_crc: None,
                last_end: Some(end),
                last_persisted_save: final(self).last_persisted_save,
                overlays: menu_closed(old(self).overlays),
                epoch: final(self).epoch,
                ..*old(self)
            }),
    {
        self.last_end = Some(end);
        self.close_session(sram)
    }

    /// Whether the session view is up: a session runs, or its end is still to
    /// be dismissed.
    pub fn in_session(&self) -> (b: bool)
        ensures
            b == (self.session is Some || self.last_end is Some),
    {
        self.session.is_some() || self.last_end.is_some()
    }

    /// The UI has shown why the last session ended.
    pub fn dismiss_end(&mut self)
        ensures
            final(self).last_end is None,
            final(self).epoch as int == (if old(self).last_end is Some {
                (old(self).epoch + 1) % 0x1_0000_0000_0000_0000
            } else {
                old(self).epoch as int
            }),
            *final(self) == (Runtime {
                last_end: None,
                epoch: final(self).epoch,
                ..*old(self)
            }),
    {
        if self.last_end.is_some() {
            self.last_end = None;
            self.epoch = self.epoch.wrapping_add(1);
        }
    }
}

// ---------------------------------------------------------------------
// The pump
// ---------------------------------------------------------------------

/// What the ticks of a pump may do.
#[derive(Debug, Clone, Copy, PartialEq, Eq, Structural)]
pub enum Gate {
    /// Nothing runs.
    Empty,
    /// The session holds: the cadence starts over when it goes on.
    Held,
    /// The session runs, at the published pace given by the bits of an IEEE
    /// single; `restart` where the cadence is to start over first.
    Open { restart: bool, pace: u32 },
}

/// The first of the active inputs, from a position on, that was not active.
pub open spec fn edge_from(active: Seq<u32>, prev: Seq<u32>, i: int) -> Option<u32>
    decreases active.len() - i,
{
    if i >= active.len() {
        None
    } else if !prev.contains(active[i]) {
        Some(active[i])
    } else {
        edge_from(active, prev, i + 1)
    }
}

fn holds(list: &Vec<u32>, x: u32) -> (b: bool)
    ensures
        b == list@.contains(x),
{
    let mut i: usize = 0;
    while i < list.len()
        invariant
            i <= list@.len(),
            forall|k: int| 0 <= k < i ==> list@[k] != x,
        decreases list@.len() - i,
    {
        if list[i] == x {
            return true;
        }
        i = i + 1;
    }
    false
}

/// A ring after a sample: the oldest goes where it is full.
pub open spec fn with_sample(h: Seq<MetricSampleView>, m: MetricSampleView) -> Seq<
    MetricSampleView,
> {
    if h.len() == HISTORY_LEN {
        h.skip(1).push(m)
    } else {
        h.push(m)
    }
}

/// A runtime that took input: what the mapping makes of keyboard and gamepad,
/// joined with the touch overlay. Hold-to-fast-forward is for local sessions
/// only; netplay pace belongs to the throttler.
pub open spec fn input_taken(rt: Runtime, mapped: u32, speed_up: bool) -> Runtime {
    match rt.session {
        None => rt,
        Some(s) => Runtime {
            session: Some(
                Session {
                    shared: SharedSession {
                        joyflags: mapped | rt.touch_keys,
                        speed: if s.descriptor.kind == SessionKind::Netplay {
                            s.shared.speed
                        } else if speed_up {
                            FAST_FORWARD
                        } else {
                            FULL_SPEED
                        },
                        ..s.shared
                    },
                    ..s
                },
            ),
            ..rt
        },
    }
}

/// Whether a pump ticks. A hidden tab keeps ticking only for netplay (the cable
/// must hold); a hidden solo session idles instead of burning a core in the
/// background forever.
pub open spec fn gated(rt: Runtime, hidden: bool) -> (Gate, Runtime) {
    match rt.session {
        None => (Gate::Empty, rt),
        Some(s) => {
            let solo = s.descriptor.kind == SessionKind::Local;
            let held = s.shared.paused || (solo && hidden);
            let shared = if held {
                SharedSession { fps_target: 0, ..s.shared }
            } else {
                SharedSession { pace_reset_requested: false, ..s.shared }
            };
            (
                if held {
                    Gate::Held
                } else {
                    Gate::Open {
                        restart: s.shared.pace_reset_requested,
                        pace: s.shared.fps_target,
                    }
                },
                Runtime { session: Some(Session { shared, ..s }), ..rt },
            )
        },
    }
}

/// Whether a pump presents the session's frame. Only on the visible path, and
/// only a frame that was published (a freshly swapped-in session holds the
/// previous image) and not presented yet.
pub open spec fn presents(rt: Runtime, source: PumpSource, presenter: bool) -> bool {
    source == PumpSource::Raf && presenter && (rt.session matches Some(s) && s.shared.vbuf_rev
        != rt.presented_rev && s.shared.vbuf_rev != 0)
}

/// The samples after a pump: one more where it changed anything while the cable
/// is in.
pub open spec fn sampled_history(rt: Runtime, changed: bool) -> Seq<MetricSampleView> {
    match rt.session {
        Some(s) if changed && s.descriptor.kind == SessionKind::Netplay => with_sample(
            history_view(rt.metric_history@),
            sampled(s.shared.stats@),
        ),
        _ => history_view(rt.metric_history@),
    }
}

impl Runtime {
    /// Binding capture: while one is pending, the gamepad input that just
    /// became active, if any. `active` is what is active now.
    pub fn scan_capture(&mut self, pending: bool, active: Vec<u32>) -> (edge: Option<u32>)
        ensures
            edge == (match old(self).capture_prev {
                Some(prev) if pending => edge_from(active@, prev@, 0),
                _ => None,
            }),
            final(self).capture_prev == (if pending {
                Some(active)
            } else {
                None
            }),
            *final(self) == (Runtime { capture_prev: final(self).capture_prev, ..*old(self) }),
    {
        if !pending {
            self.capture_prev = None;
            return None;
        }
        let mut edge: Option<u32> = None;
        match &self.capture_prev {
            Some(prev) => {
                let mut i: usize = 0;
                while i < active.len() && edge.is_none()
                    invariant
                        i <= active@.len(),
                        match edge {
                            Some(e) => edge_from(active@, prev@, 0) == Some(e),
                            None => edge_from(active@, prev@, 0) == edge_from(
                                active@,
                                prev@,
                                i as int,
                            ),
                        },
                    decreases active@.len() - i,
                {
                    if !holds(prev, active[i]) {
                        edge = Some(active[i]);
                    }
                    i = i + 1;
                }
            },
            None => {},
        }
        self.capture_prev = Some(active);
        edge
    }

    /// Input: what the mapping makes of keyboard and gamepad, joined with the
    /// touch overlay.
    pub fn take_input(&mut self, mapped: u32, speed_up: bool)
        ensures
            *final(self) == input_taken(*old(self), mapped, speed_up),
    {
        let touch: u32 = self.touch_keys;
        match &mut self.session {
            Some(s) => {
                s.shared.joyflags = mapped | touch;
                if s.descriptor.kind == SessionKind::Local {
                    s.shared.speed = if speed_up {
                        FAST_FORWARD
                    } else {
                        FULL_SPEED
                    };
                }
            },
            None => {},
        }
    }

    /// Whether this pump ticks.
    pub fn gate(&mut self, hidden: bool) -> (g: Gate)
        ensures
            (g, *final(self)) == gated(*old(self), hidden),
    {
        match &mut self.session {
            None => Gate::Empty,
            Some(s) => {
                if s.shared.paused || (s.descriptor.kind == SessionKind::Local && hidden) {
                    s.shared.set_fps_target(0);
                    Gate::Held
                } else {
                    let restart = s.shared.take_pace_reset();
                    Gate::Open { restart, pace: s.shared.fps_target }
                }
            },
        }
    }

    /// Whether a solo cart's SRAM is due to be written back. Netplay never
    /// autosaves mid-session: the frontier's SRAM is speculative under
    /// rollback; it persists at end and unplug instead.
    pub fn autosave_due(&mut self, now_ms: u64) -> (due: bool)
        ensures
            due == (old(self).save_file is Some && running(old(self).session) == Some(
                SessionKind::Local,
            ) && now_ms - old(self).last_autosave_ms > AUTOSAVE_MS),
            *final(self) == (Runtime {
                last_autosave_ms: if due {
                    now_ms
                } else {
                    old(self).last_autosave_ms
                },
                ..*old(self)
            }),
    {
        let solo = match &self.session {
            Some(s) => s.descriptor.kind == SessionKind::Local,
            None => false,
        };
        if self.save_file.is_some() && solo && now_ms > self.last_autosave_ms && now_ms
            - self.last_autosave_ms > AUTOSAVE_MS {
            self.last_autosave_ms = now_ms;
            true
        } else {
            false
        }
    }

    /// Telemetry: one sample per changed pump while the cable is in.
    pub fn take_sample(&mut self, changed: bool)
        requires
            old(self).metric_history@.len() <= HISTORY_LEN,
        ensures
            history_view(final(self).metric_history@) == sampled_history(*old(self), changed),
            final(self).metric_history@.len() <= HISTORY_LEN,
            *final(self) == (Runtime { metric_history: final(self).metric_history, ..*old(self) }),
    {
        if !changed {
            return;
        }
        let sample: MetricSample;
        match &self.session {
            Some(s) => {
                if s.descriptor.kind != SessionKind::Netplay {
                    return;
                }
                sample = MetricSample::capture(&s.shared.stats);
            },
            None => {
                return;
            },
        }
        let ghost before = self.metric_history@;
        let ghost m = sample@;
        if self.metric_history.len() == HISTORY_LEN {
            self.metric_history.pop_front();
            assert(self.metric_history@ =~= before.skip(1));
        }
        self.metric_history.push_back(sample);
        assert(history_view(self.metric_history@) =~= with_sample(history_view(before), m));
    }

    /// The picture: whether to present the session's frame.
    pub fn present_due(&mut self, source: PumpSource, presenter: bool) -> (due: bool)
        ensures
            due == presents(*old(self), source, presenter),
            *final(self) == (Runtime {
                presented_rev: if due {
                    old(self).session.unwrap().shared.vbuf_rev
                } else {
                    old(self).presented_rev
                },
                ..*old(self)
            }),
    {
        if source != PumpSource::Raf || !presenter {
            return false;
        }
        match &self.session {
            Some(s) => {
                let rev: u64 = s.shared.vbuf_rev;
                if rev != self.presented_rev && rev != 0 {
                    self.presented_rev = rev;
                    true
                } else {
                    false
                }
            },
            None => false,
        }
    }

    /// Tell the UI that a visible pump changed something.
    pub fn notify(&mut self, source: PumpSource, changed: bool)
        ensures
            final(self).frame_rev as int == (if source == PumpSource::Raf && changed {
                (old(self).frame_rev + 1) % 0x1_0000_0000_0000_0000
            } else {
                old(self).frame_rev as int
            }),
            *final(self) == (Runtime { frame_rev: final(self).frame_rev, ..*old(self) }),
    {
        if source == PumpSource::Raf && changed {
            self.frame_rev = self.frame_rev.wrapping_add(1);
        }
    }

    /// A pump up to its ticks: binding capture, input, and whether to tick.
    /// Returns the gamepad input that binds, if any.
    pub fn pump_start(
        &mut self,
        capturing: bool,
        active: Vec<u32>,
        mapped: u32,
        speed_up: bool,
        hidden: bool,
    ) -> (r: (Option<u32>, Gate))
        ensures
            r.0 == (match old(self).capture_prev {
                Some(prev) if capturing => edge_from(active@, prev@, 0),
                _ => None,
            }),
            ({
                let scanned = Runtime {
                    capture_prev: if capturing {
                        Some(active)
                    } else {
                        None
                    },
                    ..*old(self)
                };
                (r.1, *final(self)) == gated(input_taken(scanned, mapped, speed_up), hidden)
            }),
    {
        let edge: Option<u32> = self.scan_capture(capturing, active);
        self.take_input(mapped, speed_up);
        let gate = self.gate(hidden);
        (edge, gate)
    }

    /// A pump after its ticks and its autosave: telemetry, picture, and word to
    /// the UI. Returns whether to present the session's frame.
    pub fn pump_end(&mut self, source: PumpSource, presenter: bool, changed: bool) -> (present:
        bool)
        requires
            old(self).metric_history@.len() <= HISTORY_LEN,
        ensures
            present == presents(*old(self), source, presenter),
            history_view(final(self).metric_history@) == sampled_history(*old(self), changed),
            final(self).metric_history@.len() <= HISTORY_LEN,
            final(self).frame_rev as int == (if source == PumpSource::Raf && changed {
                (old(self).frame_rev + 1) % 0x1_0000_0000_0000_0000
            } else {
                old(self).frame_rev as int
            }),
            *final(self) == (Runtime {
                metric_history: final(self).metric_history,
                presented_rev: if present {
                    old(self).session.unwrap().shared.vbuf_rev
                } else {
                    old(self).presented_rev
                },
                frame_rev: final(self).frame_rev,
                ..*old(self)
            }),
    {
        self.take_sample(changed);
        let present = self.present_due(source, presenter);
        self.notify(source, changed);
        present
    }

    /// What the running session is called by those who watch.
    pub fn session_name(&self) -> (n: &'static str)
        ensures
            n@ == (match running(self.session) {
                Some(SessionKind::Netplay) => "netplay"@,
                Some(SessionKind::Local) => "local"@,
                None => "none"@,
            }),
    {
        match &self.session {
            Some(s) => match s.descriptor.kind {
                SessionKind::Netplay => "netplay",
                SessionKind::Local => "local",
            },
            None => "none",
        }
    }
}

// ---------------------------------------------------------------------
// Keys that are not the game's
// ---------------------------------------------------------------------

/// The overlays over a session.
#[derive(Debug, Clone, Copy, PartialEq, Eq, Structural)]
pub struct Overlays {
    pub menu_open: bool,
    /// The cable panel.
    pub panel_open: bool,
}

/// What becomes of a key event.
#[derive(Debug, Clone, Copy, PartialEq, Eq, Structural)]
pub enum KeyRoute {
    /// The browser keeps it.
    Pass,
    /// Neither the game nor the browser sees it.
    Swallow,
    /// It is the game's.
    Game,
}

/// What becomes of a key event: a pending capture takes the press, Escape
/// drives the overlays, and everything else is the game's.
pub open spec fn key_route(
    capturing: bool,
    code: Seq<char>,
    pressed: bool,
    running: bool,
) -> KeyRoute {
    if pressed && capturing {
        KeyRoute::Swallow
    } else if code == "Escape"@ {
        if pressed && running {
            KeyRoute::Swallow
        } else {
            KeyRoute::Pass
        }
    } else {
        KeyRoute::Game
    }
}

/// A capture once a key event was routed: Escape cancels it, another press is
/// what it waited for.
pub open spec fn key_captured(c: CaptureView, code: Seq<char>, pressed: bool) -> CaptureView {
    if !pressed || c.target is None {
        c
    } else if code == "Escape"@ {
        CaptureView { target: None, ..c }
    } else {
        taken(c, code)
    }
}

/// The overlays once the menu is closed, as it is with a session, and when a
/// cable plugs in.
pub open spec fn menu_closed(o: Overlays) -> Overlays {
    Overlays { menu_open: false, ..o }
}

/// The overlays after Escape: it collapses the cable panel before it opens the
/// menu, and toggles the menu otherwise.
pub open spec fn escaped(o: Overlays) -> Overlays {
    if o.panel_open && !o.menu_open {
        Overlays { panel_open: false, ..o }
    } else {
        Overlays { menu_open: !o.menu_open, ..o }
    }
}

impl Overlays {
    /// Route one key event from outside a text field.
    pub fn key(&mut self, capture: &mut Capture, code: &str, pressed: bool, running: bool) -> (r:
        KeyRoute)
        ensures
            r == key_route(old(capture)@.target is Some, code@, pressed, running),
            final(capture)@ == key_captured(old(capture)@, code@, pressed),
            *final(self) == (if r == KeyRoute::Swallow && old(capture)@.target is None {
                escaped(*old(self))
            } else {
                *old(self)
            }),
    {
        if pressed && capture.target.is_some() {
            if same_text(code, "Escape") {
                capture.target = None;
            } else {
                capture.take(code);
            }
            return KeyRoute::Swallow;
        }
        if same_text(code, "Escape") {
            if pressed && running {
                if self.panel_open && !self.menu_open {
                    self.panel_open = false;
                } else {
                    self.menu_open = !self.menu_open;
                }
                return KeyRoute::Swallow;
            }
            return KeyRoute::Pass;
        }
        KeyRoute::Game
    }
}

/// The card dropped from the chip row.
#[derive(Debug, Clone, Copy, PartialEq, Eq, Structural)]
pub enum Card {
    Menu,
    /// The connected link's statistics.
    Telemetry,
    /// The link panel's room.
    Cable,
    Nothing,
}

/// The overlays after a click on the menu chip: opening the menu takes the
/// panel up.
pub open spec fn menu_toggled(o: Overlays) -> Overlays {
    Overlays { menu_open: !o.menu_open, panel_open: o.panel_open && o.menu_open }
}

/// The overlays after a click on the cable chip: opening the panel takes the
/// menu up.
pub open spec fn panel_toggled(o: Overlays) -> Overlays {
    Overlays { panel_open: !o.panel_open, menu_open: o.menu_open && o.panel_open }
}

impl Overlays {
    /// The menu chip was clicked: it toggles its own card, and only one is down
    /// at a time.
    pub fn toggle_menu(&mut self)
        ensures
            *final(self) == menu_toggled(*old(self)),
    {
        if !self.menu_open {
            self.panel_open = false;
        }
        self.menu_open = !self.menu_open;
    }

    /// The cable chip was clicked: likewise.
    pub fn toggle_panel(&mut self)
        ensures
            *final(self) == panel_toggled(*old(self)),
    {
        if !self.panel_open {
            self.menu_open = false;
        }
        self.panel_open = !self.panel_open;
    }

    /// A click outside a dropped card dismisses it.
    pub fn dismiss(&mut self)
        ensures
            *final(self) == (Overlays { menu_open: false, panel_open: false }),
    {
        self.menu_open = false;
        self.panel_open = false;
    }

    /// The card that is down, the cable being in or not.
    pub fn card(&self, netplay: bool) -> (c: Card)
        ensures
            c == (if self.menu_open {
                Card::Menu
            } else if self.panel_open && netplay {
                Card::Telemetry
            } else if self.panel_open {
                Card::Cable
            } else {
                Card::Nothing
            }),
    {
        if self.menu_open {
            Card::Menu
        } else if self.panel_open && netplay {
            Card::Telemetry
        } else if self.panel_open {
            Card::Cable
        } else {
            Card::Nothing
        }
    }
}

/// Whether a key event belongs to the element it was typed into: text inputs
/// keep their keys.
pub fn keeps_its_keys(tag: &str) -> (b: bool)
    ensures
        b == (tag@ == "INPUT"@ || tag@ == "TEXTAREA"@ || tag@ == "SELECT"@),
{
    same_text(tag, "INPUT") || same_text(tag, "TEXTAREA") || same_text(tag, "SELECT")
}

// ---------------------------------------------------------------------
// Laws
// ---------------------------------------------------------------------

/// The sample ring never outgrows its length, and ends with the newest sample.
pub proof fn law_the_ring_is_bounded(h: Seq<MetricSampleView>, m: MetricSampleView)
    requires
        h.len() <= HISTORY_LEN,
    ensures
        with_sample(h, m).len() <= HISTORY_LEN,
        with_sample(h, m).last() == m,
{
}

/// Only one card is down at a time, whatever is clicked or pressed.
pub proof fn law_one_card_at_a_time(o: Overlays)
    requires
        !(o.menu_open && o.panel_open),
    ensures
        !(menu_toggled(o).menu_open && menu_toggled(o).panel_open),
        !(panel_toggled(o).menu_open && panel_toggled(o).panel_open),
        !(escaped(o).menu_open && escaped(o).panel_open),
        !(menu_closed(o).menu_open && menu_closed(o).panel_open),
{
}

/// An input already held when a capture begins cannot bind itself: only what
/// was not active before is ever taken.
pub proof fn law_held_inputs_do_not_bind(active: Seq<u32>, prev: Seq<u32>, i: int)
    requires
        0 <= i,
    ensures
        edge_from(active, prev, i) matches Some(e) ==> active.contains(e) && !prev.contains(e),
        (forall|k: int| i <= k < active.len() ==> prev.contains(#[trigger] active[k])) <==>
            edge_from(active, prev, i) is None,
    decreases active.len() - i,
{
    if i < active.len() {
        law_held_inputs_do_not_bind(active, prev, i + 1);
        if !prev.contains(active[i]) {
            assert(active.contains(active[i]));
        }
    }
}

} // verus!
