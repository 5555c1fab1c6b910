//! The fullscreen session view: what runs, what lies over it, and why it ended.
use vstd::prelude::*;
use crate::library::{crc_at, holds, roms_view, shown_name, Library, RomInfoView};
use crate::runtime::end_ok;
use crate::session::{LinkKind, SessionEnd, SessionKind};
use crate::text::{decimal, push_decimal};
use crate::ui::telemetry::{signal_icon, signal_of, Signal};

verus! {

/// The end overlay's one-liner. Players are named by their position, from one.
pub open spec fn end_text(end: SessionEnd) -> Seq<char> {
    match end {
        SessionEnd::LocalQuit => "Session ended."@,
        SessionEnd::Unplugged => "Unplugged."@,
        SessionEnd::PeerQuit { player } => "player "@ + decimal(player as nat + 1)
            + " left the session."@,
        SessionEnd::PeerDisconnected { player } => "Connection to player "@ + decimal(
            player as nat + 1,
        ) + " lost."@,
        SessionEnd::Desync { tick } => "Desync detected at tick "@ + decimal(tick as nat)
            + " — session aborted."@,
        SessionEnd::Error(e) => "Session error: "@ + e@,
    }
}

/// The end overlay's one-liner.
pub fn end_message(end: &SessionEnd) -> (t: String)
    requires
        end_ok(*end),
    ensures
        t@ == end_text(*end),
{
    match end {
        SessionEnd::LocalQuit => "Session ended.".to_owned(),
        SessionEnd::Unplugged => "Unplugged.".to_owned(),
        SessionEnd::PeerQuit { player } => {
            let mut t = "player ".to_owned();
            push_decimal(&mut t, *player as u64 + 1);
            t.append(" left the session.");
            t
        },
        SessionEnd::PeerDisconnected { player } => {
            let mut t = "Connection to player ".to_owned();
            push_decimal(&mut t, *player as u64 + 1);
            t.append(" lost.");
            t
        },
        SessionEnd::Desync { tick } => {
            let mut t = "Desync detected at tick ".to_owned();
            push_decimal(&mut t, *tick as u64);
            t.append(" — session aborted.");
            t
        },
        SessionEnd::Error(e) => {
            let mut t = "Session error: ".to_owned();
            t.append(e.as_str());
            t
        },
    }
}

/// What a session is called: its ROM's name where the library has it.
pub open spec fn title(rom_crc32: Option<u32>, roms: Seq<RomInfoView>) -> Seq<char> {
    match rom_crc32 {
        Some(crc) if holds(roms, crc) => shown_name(roms[crc_at(roms, crc) as int]),
        _ => "Session"@,
    }
}

/// What a session is called.
pub fn session_title(rom_crc32: Option<u32>, library: &Library) -> (t: String)
    ensures
        t@ == title(rom_crc32, roms_view(library.roms@)),
{
    match rom_crc32 {
        Some(crc) => match library.by_crc32(crc) {
            Some(rom) => rom.display_name().to_owned(),
            None => "Session".to_owned(),
        },
        None => "Session".to_owned(),
    }
}

/// The line under a session's title.
pub fn session_caption(kind: Option<SessionKind>) -> (t: &'static str)
    ensures
        t@ == (if kind == Some(SessionKind::Netplay) {
            "Netplay"@
        } else {
            "Playing solo"@
        }),
{
    match kind {
        Some(SessionKind::Netplay) => "Netplay",
        _ => "Playing solo",
    }
}

/// What stands over the picture. Only the end overlay is modal; the chip row
/// keeps its spot in every other state.
#[derive(Debug, Clone, Copy, PartialEq, Eq, Structural)]
pub struct Stage {
    /// The chip row, and the on-screen controls.
    pub chips: bool,
    /// The badge that says why the game stopped moving.
    pub paused: bool,
    /// Why the session ended, with a way back.
    pub end: bool,
}

/// What stands over the picture, by whether a session is running, whether it is
/// paused, whether the menu is down, and whether an end is still to be read.
pub fn stage(running: bool, paused: bool, menu_open: bool, ended: bool) -> (s: Stage)
    ensures
        s == (Stage {
            chips: running && !ended,
            paused: running && paused && !menu_open && !ended,
            end: ended,
        }),
{
    Stage {
        chips: running && !ended,
        paused: running && paused && !menu_open && !ended,
        end: ended,
    }
}

/// The backing store of the picture: its own size where it is shown in integer
/// multiples, else six times that for the browser to fit smoothly.
pub fn canvas_size(integer_scaling: bool) -> (size: (u32, u32))
    ensures
        size == (if integer_scaling {
            (240u32, 160u32)
        } else {
            (1440u32, 960u32)
        }),
{
    if integer_scaling {
        (240, 160)
    } else {
        (1440, 960)
    }
}

/// The face of the link chip: the link's quality while connected, else the
/// session's peripheral.
#[derive(Debug, Clone, Copy, PartialEq, Eq, Structural)]
pub enum Chip {
    Connected(Signal),
    Wireless,
    Cable,
}

/// The face of the link chip.
pub fn link_chip(kind: Option<SessionKind>, skew: i32, link: LinkKind) -> (c: Chip)
    ensures
        c == (if kind == Some(SessionKind::Netplay) {
            Chip::Connected(signal_of(skew as int))
        } else if link == LinkKind::Wireless {
            Chip::Wireless
        } else {
            Chip::Cable
        }),
{
    match kind {
        Some(SessionKind::Netplay) => Chip::Connected(signal_icon(skew)),
        _ => match link {
            LinkKind::Wireless => Chip::Wireless,
            LinkKind::Cable => Chip::Cable,
        },
    }
}

/// The menu's line of key hints, by what fast-forward is bound to.
pub fn key_hints(speed_up: Option<&str>) -> (t: String)
    ensures
        t@ == (match speed_up {
            Some(label) => "Esc — menu"@ + "  ·  hold "@ + label@ + " — fast-forward"@,
            None => "Esc — menu"@,
        }),
{
    let mut t = "Esc — menu".to_owned();
    match speed_up {
        Some(label) => {
            t.append("  ·  hold ");
            t.append(label);
            t.append(" — fast-forward");
        },
        None => {},
    }
    t
}

/// The save picked after a session: one that began fresh and persisted created
/// a real file, and the next one continues it instead of booting fresh again.
pub fn save_after(selected: Option<String>, persisted: Option<String>) -> (s: Option<String>)
    ensures
        s == (if selected is Some {
            selected
        } else {
            persisted
        }),
{
    match selected {
        Some(s) => Some(s),
        None => persisted,
    }
}

} // verus!
