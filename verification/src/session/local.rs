//! A solo session with no rollback engine. This is the machine that netplay
//! plugs into and resumes after the virtual cable is unplugged.
use vstd::prelude::*;
use crate::session::{
    Handoff, LinkKind, SessionDescriptor, SessionEnd, SessionKind, SharedSession, Stats,
};

verus! {

/// The ten keys of the joypad.
pub const JOYPAD_MASK: u32 = 0x3ff;

/// The slowest pace of a solo session, in percent.
pub const MIN_SPEED: u32 = 25;

#[derive(Debug)]
pub struct LocalArgs {
    pub rom: Vec<u8>,
    /// CRC32 of the ROM (for the session descriptor).
    pub rom_crc32: u32,
    /// Save data for the solo cart.
    pub save: Option<Vec<u8>>,
    /// The cart clock's boot value, in microseconds since 1970.
    pub rtc_unix_micros: u64,
    /// What's on the machine's link port. A wireless machine gets its adapter
    /// from power-on, so the game's wireless menus work solo.
    pub link: LinkKind,
}

/// What a machine starts from: power-on, or the state a link left it in.
#[derive(Debug)]
pub struct Machine {
    pub rom: Vec<u8>,
    pub save: Option<Vec<u8>>,
    /// Serialized core state; `None` at power-on.
    pub state: Option<Vec<u8>>,
    pub adapter: Option<Vec<u8>>,
    pub rtc_unix_micros: u64,
    pub link: LinkKind,
}

/// A local session about to run: the machine to boot, the state it shares and
/// what describes it.
#[derive(Debug)]
pub struct LocalSession {
    pub machine: Machine,
    pub shared: SharedSession,
    pub descriptor: SessionDescriptor,
}

/// Whether a descriptor is that of a solo session: one player, called
/// `Player 1`, in no room.
pub open spec fn is_solo(d: SessionDescriptor, rom_crc32: u32, link: LinkKind) -> bool {
    &&& d.kind == SessionKind::Local
    &&& d.local_player == 0
    &&& d.nicks@.len() == 1
    &&& d.nicks@[0]@ == "Player 1"@
    &&& d.room_code is None
    &&& d.rom_crc32 == Some(rom_crc32)
    &&& d.link == link
}

fn solo(rom_crc32: u32, link: LinkKind) -> (d: SessionDescriptor)
    ensures
        is_solo(d, rom_crc32, link),
{
    let mut nicks: Vec<String> = Vec::new();
    nicks.push("Player 1".to_owned());
    SessionDescriptor {
        kind: SessionKind::Local,
        local_player: 0,
        nicks,
        room_code: None,
        rom_crc32: Some(rom_crc32),
        link,
    }
}

/// A fresh local session from power-on.
pub fn start(args: LocalArgs) -> (s: LocalSession)
    ensures
        s.machine == (Machine {
            rom: args.rom,
            save: args.save,
            state: None,
            adapter: None,
            rtc_unix_micros: args.rtc_unix_micros,
            link: args.link,
        }),
        is_solo(s.descriptor, args.rom_crc32, args.link),
        s.shared.is_fresh(0, 0),
{
    let link: LinkKind = args.link;
    LocalSession {
        machine: Machine {
            rom: args.rom,
            save: args.save,
            state: None,
            adapter: None,
            rtc_unix_micros: args.rtc_unix_micros,
            link,
        },
        shared: SharedSession::new(0),
        descriptor: solo(args.rom_crc32, link),
    }
}

/// Continue a solo machine from a netplay teardown: the cable was unplugged,
/// the game keeps running from exactly where the link left it.
pub fn resume(handoff: Handoff, rom_crc32: u32) -> (s: LocalSession)
    ensures
        s.machine == (Machine {
            rom: handoff.rom,
            save: handoff.save,
            state: Some(handoff.state),
            adapter: handoff.adapter,
            rtc_unix_micros: handoff.rtc_unix_micros,
            link: handoff.link,
        }),
        is_solo(s.descriptor, rom_crc32, handoff.link),
        s.shared.is_fresh(0, 0),
{
    let link: LinkKind = handoff.link;
    LocalSession {
        machine: Machine {
            rom: handoff.rom,
            save: handoff.save,
            state: Some(handoff.state),
            adapter: handoff.adapter,
            rtc_unix_micros: handoff.rtc_unix_micros,
            link,
        },
        shared: SharedSession::new(0),
        descriptor: solo(rom_crc32, link),
    }
}

/// The session's end after the emulator gave up.
pub fn emulation_error(e: &str) -> (end: SessionEnd)
    ensures
        end matches SessionEnd::Error(t) && t@ == "emulation error: "@ + e@,
{
    let mut t = "emulation error: ".to_owned();
    t.append(e);
    SessionEnd::Error(t)
}

/// The solo session's per-tick body. The pump owns pacing and the pause gate;
/// a tick is only begun when the session should actually advance one frame.
#[derive(Debug)]
pub struct LocalDriver;

impl LocalDriver {
    /// Begin a tick: the keys to advance one frame with, or `None` once the
    /// session has ended (the end is then recorded in `shared`).
    pub fn begin_tick(&self, shared: &mut SharedSession) -> (keys: Option<u32>)
        ensures
            old(shared).quit ==> keys is None && *final(shared) == (SharedSession {
                end: if old(shared).end is None {
                    Some(SessionEnd::LocalQuit)
                } else {
                    old(shared).end
                },
                fps_target: 0,
                ..*old(shared)
            }),
            !old(shared).quit ==> keys == Some(old(shared).joyflags & JOYPAD_MASK)
                && *final(shared) == *old(shared),
    {
        if shared.quit {
            shared.finish(SessionEnd::LocalQuit);
            return None;
        }
        Some(shared.joyflags & JOYPAD_MASK)
    }

    /// The pace to run at, in percent of the machine's own: hold-to-fast-forward
    /// comes in via the speed knob.
    pub fn speed(&self, shared: &SharedSession) -> (percent: u32)
        ensures
            percent as int == vstd::math::max(shared.speed as int, MIN_SPEED as int),
    {
        if shared.speed < MIN_SPEED {
            MIN_SPEED
        } else {
            shared.speed
        }
    }

    /// End a tick: the frame it drew, if any, or what went wrong. `pace` is
    /// the bits of the pace to publish. Returns `false` once the session has
    /// ended: a corrupt link state must end the session with a message.
    pub fn end_tick(
        &self,
        shared: &mut SharedSession,
        drawn: Result<Option<Vec<u8>>, String>,
        pace: u32,
    ) -> (going: bool)
        ensures
            going == (drawn is Ok),
            drawn matches Err(e) ==> {
                &&& final(shared).fps_target == 0
                &&& old(shared).end is Some ==> final(shared).end == old(shared).end
                &&& old(shared).end is None ==> (final(shared).end matches Some(
                    SessionEnd::Error(t),
                ) && t@ == "emulation error: "@ + e@)
                &&& *final(shared) == (SharedSession {
                    end: final(shared).end,
                    fps_target: 0,
                    ..*old(shared)
                })
            },
            drawn matches Ok(frame) ==> {
                &&& final(shared).fps_target == pace
                &&& final(shared).end == old(shared).end
                &&& match frame {
                    Some(f) => final(shared).vbuf@ == f@ && final(shared).vbuf_rev as int == (old(
                        shared,
                    ).vbuf_rev + 1) % 0x1_0000_0000_0000_0000,
                    None => final(shared).vbuf@ == old(shared).vbuf@ && final(shared).vbuf_rev
                        == old(shared).vbuf_rev,
                }
                &&& final(shared).stats.fps_target == pace
                &&& final(shared).stats.frontier as int == (old(shared).stats.frontier + 1)
                    % 0x1_0000_0000
                &&& *final(shared) == (SharedSession {
                    vbuf: final(shared).vbuf,
                    vbuf_rev: final(shared).vbuf_rev,
                    fps_target: pace,
                    stats: (Stats {
                        fps_target: pace,
                        frontier: final(shared).stats.frontier,
                        ..old(shared).stats
                    }),
                    ..*old(shared)
                })
            },
    {
        match drawn {
            Err(e) => {
                shared.finish(emulation_error(e.as_str()));
                false
            },
            Ok(frame) => {
                match frame {
                    Some(f) => {
                        shared.publish_video(f.as_slice());
                    },
                    None => {},
                }
                shared.set_fps_target(pace);
                shared.stats.fps_target = pace;
                shared.stats.frontier = shared.stats.frontier.wrapping_add(1);
                true
            },
        }
    }
}

} // verus!
