//! The lobby body inside the cable panel: player slots (with per-player ROM
//! identity and "do I have that ROM?" checks), ready flags, and the host's
//! start button. The game keeps running behind the panel until the cable plugs
//! in.
use vstd::prelude::*;
use crate::library::{crc_at, holds, roms_view, shown_name, Library, RomInfoView};
use crate::signaling::messages::player_infos_view;
use crate::signaling::{PlayerInfo, PlayerInfoView, MAX_CABLE_PLAYERS};
use crate::text::{decimal, push_decimal};
use crate::ui::play::maybe;

verus! {

/// What the lobby knows of its room.
#[derive(Debug)]
pub struct State {
    /// The room's code, once the server has assigned it.
    pub code: Option<String>,
    pub players: Vec<PlayerInfo>,
    pub my_idx: usize,
    pub my_ready: bool,
    /// Progress line for the connecting and exchange phase.
    pub status: Option<String>,
    /// The room has started and is building the peer mesh. Lobby controls stay
    /// hidden during this one-way transition.
    pub starting: bool,
}

impl State {
    pub fn new() -> (s: State)
        ensures
            s.code is None,
            s.players@.len() == 0,
            s.my_idx == 0,
            !s.my_ready,
            s.status is None,
            !s.starting,
    {
        State {
            code: None,
            players: Vec::new(),
            my_idx: 0,
            my_ready: false,
            status: None,
            starting: false,
        }
    }
}

/// The name to show for a player's ROM: the library's where it holds the ROM,
/// else the title the player announced.
pub open spec fn title_of(p: PlayerInfoView, roms: Seq<RomInfoView>) -> Seq<char> {
    if holds(roms, p.rom_crc32) {
        shown_name(roms[crc_at(roms, p.rom_crc32) as int])
    } else {
        p.rom_title
    }
}

/// The name to show for a player's ROM.
pub fn display_rom_title<'a>(player: &'a PlayerInfo, library: &'a Library) -> (t: &'a str)
    ensures
        t@ == title_of(player@, roms_view(library.roms@)),
{
    match library.by_crc32(player.rom_crc32) {
        Some(rom) => rom.display_name(),
        None => player.rom_title.as_str(),
    }
}

/// How a seat stands. The host never readies up.
#[derive(Debug, Clone, Copy, PartialEq, Eq, Structural)]
pub enum SeatStatus {
    Host,
    Ready,
    Waiting,
}

/// What a seat's badge says.
pub open spec fn badge(s: SeatStatus) -> Seq<char> {
    match s {
        SeatStatus::Host => "Host"@,
        SeatStatus::Ready => "Ready"@,
        SeatStatus::Waiting => "Waiting"@,
    }
}

impl SeatStatus {
    /// What a seat's badge says.
    pub fn label(self) -> (t: &'static str)
        ensures
            t@ == badge(self),
    {
        match self {
            SeatStatus::Host => "Host",
            SeatStatus::Ready => "Ready",
            SeatStatus::Waiting => "Waiting",
        }
    }
}

/// A row of the roster.
#[derive(Debug)]
pub enum SlotRow {
    Taken { line: String, status: SeatStatus, rom_title: String, missing_rom: bool },
    Open { label: String },
}

/// What a [`SlotRow`] says.
#[verifier::ext_equal]
pub enum SlotRowView {
    Taken { line: Seq<char>, status: SeatStatus, rom_title: Seq<char>, missing_rom: bool },
    Open { label: Seq<char> },
}

impl View for SlotRow {
    type V = SlotRowView;

    open spec fn view(&self) -> SlotRowView {
        match *self {
            SlotRow::Taken { line, status, rom_title, missing_rom } => SlotRowView::Taken {
                line: line@,
                status,
                rom_title: rom_title@,
                missing_rom,
            },
            SlotRow::Open { label } => SlotRowView::Open { label: label@ },
        }
    }
}

/// What a roster says.
pub open spec fn slots_view(s: Seq<SlotRow>) -> Seq<SlotRowView> {
    s.map_values(|r: SlotRow| r@)
}

/// What the lobby offers.
#[derive(Debug)]
pub enum Controls {
    /// The room is linking up.
    Starting { status: String },
    /// The host's start button.
    Host { can_start: bool, hint: String },
    /// Everyone else's ready flag.
    Guest { ready: bool, can_toggle: bool, hint: String },
}

/// What [`Controls`] say.
#[verifier::ext_equal]
pub enum ControlsView {
    Starting { status: Seq<char> },
    Host { can_start: bool, hint: Seq<char> },
    Guest { ready: bool, can_toggle: bool, hint: Seq<char> },
}

impl View for Controls {
    type V = ControlsView;

    open spec fn view(&self) -> ControlsView {
        match *self {
            Controls::Starting { status } => ControlsView::Starting { status: status@ },
            Controls::Host { can_start, hint } => ControlsView::Host { can_start, hint: hint@ },
            Controls::Guest { ready, can_toggle, hint } => ControlsView::Guest {
                ready,
                can_toggle,
                hint: hint@,
            },
        }
    }
}

/// The lobby body.
#[derive(Debug)]
pub enum Content {
    /// There is no room yet.
    Connecting { status: String },
    Room {
        slots: Vec<SlotRow>,
        /// A required ROM is missing from the library.
        missing_rom: bool,
        controls: Controls,
        status: Option<String>,
    },
}

/// What a [`Content`] says.
#[verifier::ext_equal]
pub enum ContentView {
    Connecting { status: Seq<char> },
    Room {
        slots: Seq<SlotRowView>,
        missing_rom: bool,
        controls: ControlsView,
        status: Option<Seq<char>>,
    },
}

impl View for Content {
    type V = ContentView;

    open spec fn view(&self) -> ContentView {
        match *self {
            Content::Connecting { status } => ContentView::Connecting { status: status@ },
            Content::Room { slots, missing_rom, controls, status } => ContentView::Room {
                slots: slots_view(slots@),
                missing_rom,
                controls: controls@,
                status: maybe(status),
            },
        }
    }
}

/// How the seat at a position stands.
pub open spec fn seat_status(players: Seq<PlayerInfoView>, i: int) -> SeatStatus {
    if i == 0 {
        SeatStatus::Host
    } else if players[i].ready {
        SeatStatus::Ready
    } else {
        SeatStatus::Waiting
    }
}

/// The row of the seat at a position.
pub open spec fn seat_row(
    players: Seq<PlayerInfoView>,
    i: int,
    my_idx: nat,
    roms: Seq<RomInfoView>,
) -> SlotRowView {
    SlotRowView::Taken {
        line: "P"@ + decimal((i + 1) as nat) + " · "@ + players[i].nick + (if i == my_idx {
            " · You"@
        } else {
            Seq::empty()
        }),
        status: seat_status(players, i),
        rom_title: title_of(players[i], roms),
        missing_rom: !holds(roms, players[i].rom_crc32),
    }
}

/// The roster: everybody in the room, and open seats up to a full one.
pub open spec fn roster_rows(
    players: Seq<PlayerInfoView>,
    my_idx: nat,
    roms: Seq<RomInfoView>,
) -> Seq<SlotRowView> {
    let n = if players.len() < MAX_CABLE_PLAYERS {
        MAX_CABLE_PLAYERS as nat
    } else {
        players.len()
    };
    Seq::new(
        n,
        |i: int|
            if i < players.len() {
                seat_row(players, i, my_idx, roms)
            } else {
                SlotRowView::Open { label: "P"@ + decimal((i + 1) as nat) }
            },
    )
}

/// Whether the library holds everybody's ROM.
pub open spec fn have_all(players: Seq<PlayerInfoView>, roms: Seq<RomInfoView>) -> bool {
    forall|i: int| 0 <= i < players.len() ==> holds(roms, (#[trigger] players[i]).rom_crc32)
}

/// How many, from a position on, are not ready.
pub open spec fn waiting_from(players: Seq<PlayerInfoView>, i: int) -> nat
    decreases players.len() - i,
{
    if i >= players.len() {
        0
    } else {
        waiting_from(players, i + 1) + (if players[i].ready {
            0nat
        } else {
            1nat
        })
    }
}

/// The hint under the host's start button.
pub open spec fn host_hint(players: Seq<PlayerInfoView>, have_all: bool) -> Seq<char> {
    let waiting = waiting_from(players, 1);
    if players.len() < 2 {
        "Waiting for someone to join."@
    } else if !have_all {
        "Add the missing ROM before starting."@
    } else if waiting > 0 {
        "Waiting for "@ + decimal(waiting) + (if waiting == 1 {
            " player"@
        } else {
            " players"@
        }) + " to get ready."@
    } else {
        "Everyone is ready. This will plug in the virtual cable."@
    }
}

/// A status line, or what stands in its place.
pub open spec fn status_or(status: Option<Seq<char>>, otherwise: Seq<char>) -> Seq<char> {
    match status {
        Some(s) => s,
        None => otherwise,
    }
}

/// What the lobby offers.
pub open spec fn controls_of(s: State, have_all: bool) -> ControlsView {
    let players = player_infos_view(s.players@);
    if s.starting {
        ControlsView::Starting { status: status_or(maybe(s.status), "Connecting players…"@) }
    } else if s.my_idx == 0 {
        ControlsView::Host {
            can_start: players.len() >= 2 && waiting_from(players, 1) == 0 && have_all,
            hint: host_hint(players, have_all),
        }
    } else {
        ControlsView::Guest {
            ready: s.my_ready,
            can_toggle: have_all || s.my_ready,
            hint: if have_all {
                "The host can start once every player is ready."@
            } else {
                "Add the missing ROM before marking yourself ready."@
            },
        }
    }
}

/// The lobby body.
pub open spec fn content_of(s: State, roms: Seq<RomInfoView>) -> ContentView {
    let players = player_infos_view(s.players@);
    if s.code is None {
        ContentView::Connecting { status: status_or(maybe(s.status), "Connecting to the lobby…"@) }
    } else {
        ContentView::Room {
            slots: roster_rows(players, s.my_idx as nat, roms),
            missing_rom: !have_all(players, roms),
            controls: controls_of(s, have_all(players, roms)),
            status: if s.starting {
                None
            } else {
                maybe(s.status)
            },
        }
    }
}

fn status_text(status: &Option<String>, otherwise: &str) -> (t: String)
    ensures
        t@ == status_or(maybe(*status), otherwise@),
{
    match status {
        Some(s) => s.as_str().to_owned(),
        None => otherwise.to_owned(),
    }
}

fn count_waiting(players: &Vec<PlayerInfo>) -> (n: usize)
    ensures
        n == waiting_from(player_infos_view(players@), 1),
{
    let ghost pv = player_infos_view(players@);
    let mut n: usize = 0;
    let mut i: usize = players.len();
    let len: usize = players.len();
    proof {
        assert(waiting_from(pv, i as int) == 0);
        assert(waiting_from(pv, 1) == 0 || i >= 1);
    }
    while i > 1
        invariant
            i <= players@.len(),
            pv == player_infos_view(players@),
            n == waiting_from(pv, i as int),
            n <= len - i,
            len == players@.len(),
            len >= 1 ==> i >= 1,
        decreases i,
    {
        assert(pv[i - 1] == players@[i - 1]@);
        if !players[i - 1].ready {
            n = n + 1;
        }
        i = i - 1;
    }
    n
}

fn hint_for_host(players: &Vec<PlayerInfo>, have_all: bool) -> (t: String)
    ensures
        t@ == host_hint(player_infos_view(players@), have_all),
{
    let waiting: usize = count_waiting(players);
    if players.len() < 2 {
        "Waiting for someone to join.".to_owned()
    } else if !have_all {
        "Add the missing ROM before starting.".to_owned()
    } else if waiting > 0 {
        let mut t = "Waiting for ".to_owned();
        push_decimal(&mut t, waiting as u64);
        if waiting == 1 {
            t.append(" player");
        } else {
            t.append(" players");
        }
        t.append(" to get ready.");
        t
    } else {
        "Everyone is ready. This will plug in the virtual cable.".to_owned()
    }
}

/// The lobby body for the unified cable panel.
pub fn content(state: &State, library: &Library) -> (c: Content)
    ensures
        c@ == content_of(*state, roms_view(library.roms@)),
{
    if state.code.is_none() {
        return Content::Connecting {
            status: status_text(&state.status, "Connecting to the lobby…"),
        };
    }
    let ghost pv = player_infos_view(state.players@);
    let ghost roms = roms_view(library.roms@);
    let mut have_all_roms: bool = true;
    let mut slots: Vec<SlotRow> = Vec::new();
    let mut i: usize = 0;
    while i < state.players.len()
        invariant
            i <= state.players@.len(),
            pv == player_infos_view(state.players@),
            roms == roms_view(library.roms@),
            slots@.len() == i,
            forall|k: int|
                0 <= k < i ==> (#[trigger] slots@[k])@ == seat_row(
                    pv,
                    k,
                    state.my_idx as nat,
                    roms,
                ),
            have_all_roms == (forall|k: int|
                0 <= k < i ==> holds(roms, (#[trigger] pv[k]).rom_crc32)),
        decreases state.players@.len() - i,
    {
        let player = &state.players[i];
        assert(pv[i as int] == player@);
        let have_rom = library.by_crc32(player.rom_crc32).is_some();
        if !have_rom {
            have_all_roms = false;
        }
        let mut line = "P".to_owned();
        push_decimal(&mut line, i as u64 + 1);
        line.append(" · ");
        line.append(player.nick.as_str());
        if i == state.my_idx {
            line.append(" · You");
        }
        let status = if i == 0 {
            SeatStatus::Host
        } else if player.ready {
            SeatStatus::Ready
        } else {
            SeatStatus::Waiting
        };
        let row = SlotRow::Taken {
            line,
            status,
            rom_title: display_rom_title(player, library).to_owned(),
            missing_rom: !have_rom,
        };
        assert(row@ =~= seat_row(pv, i as int, state.my_idx as nat, roms));
        slots.push(row);
        i = i + 1;
    }
    let ghost n = state.players@.len();
    while i < MAX_CABLE_PLAYERS
        invariant
            n <= i,
            i == n || i <= MAX_CABLE_PLAYERS,
            n == pv.len(),
            slots@.len() == i,
            forall|k: int|
                0 <= k < n ==> (#[trigger] slots@[k])@ == seat_row(
                    pv,
                    k,
                    state.my_idx as nat,
                    roms,
                ),
            forall|k: int|
                n <= k < i ==> (#[trigger] slots@[k])@ == (SlotRowView::Open {
                    label: "P"@ + decimal((k + 1) as nat),
                }),
        decreases MAX_CABLE_PLAYERS - i,
    {
        let mut label = "P".to_owned();
        push_decimal(&mut label, i as u64 + 1);
        slots.push(SlotRow::Open { label });
        i = i + 1;
    }
    assert(slots_view(slots@) =~= roster_rows(pv, state.my_idx as nat, roms));
    let controls = if state.starting {
        Controls::Starting { status: status_text(&state.status, "Connecting players…") }
    } else if state.my_idx == 0 {
        let all_ready = state.players.len() >= 2 && count_waiting(&state.players) == 0;
        Controls::Host {
            can_start: all_ready && have_all_roms,
            hint: hint_for_host(&state.players, have_all_roms),
        }
    } else {
        Controls::Guest {
            ready: state.my_ready,
            can_toggle: have_all_roms || state.my_ready,
            hint: if have_all_roms {
                "The host can start once every player is ready.".to_owned()
            } else {
                "Add the missing ROM before marking yourself ready.".to_owned()
            },
        }
    };
    let status = if state.starting {
        None
    } else {
        match &state.status {
            Some(s) => Some(s.as_str().to_owned()),
            None => None,
        }
    };
    Content::Room { slots, missing_rom: !have_all_roms, controls, status }
}

// ---------------------------------------------------------------------
// Laws
// ---------------------------------------------------------------------

/// Nobody starts a room, or becomes ready in it, without everybody's ROM.
pub proof fn law_no_start_without_every_rom(s: State, roms: Seq<RomInfoView>)
    requires
        !have_all(player_infos_view(s.players@), roms),
    ensures
        content_of(s, roms) matches ContentView::Room { controls, missing_rom, .. } ==> {
            &&& missing_rom
            &&& controls matches ControlsView::Host { can_start, .. } ==> !can_start
            &&& controls matches ControlsView::Guest { can_toggle, ready, .. } ==> can_toggle
                == ready
        },
{
}

/// The roster never shifts: it has as many rows as a full room, whoever is in.
pub proof fn law_the_roster_is_steady(
    players: Seq<PlayerInfoView>,
    my_idx: nat,
    roms: Seq<RomInfoView>,
)
    requires
        players.len() <= MAX_CABLE_PLAYERS,
    ensures
        roster_rows(players, my_idx, roms).len() == MAX_CABLE_PLAYERS,
{
}

} // verus!
