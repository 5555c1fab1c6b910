//! The link panel's room body: create or join, then the roster for as long as
//! this machine is in the room. Rooms hold dynamic membership, so the roster
//! (and the code, for inviting more players) stays live while a merged session
//! runs. One drain per room owns the event stream and drives every merge: walk
//! out of a running link, capture on `Starting`, plug in on `SessionReady`,
//! repeatedly, as membership changes bring re-merges.
use vstd::prelude::*;
use crate::library::{holds, roms_view, Library, RomInfoView};
use crate::net::lobby::{
    boots_view, LobbyArgs, LobbyCommand, LobbyCommandView, LobbyEvent, LobbyEventView, LobbyMode,
    SessionBundle,
};
use crate::nointro::DatIndex;
use crate::session::{LinkKind, SessionKind};
use crate::signaling::messages::{player_infos_view, start_players_view};
use crate::signaling::{
    is_room_code, max_players, PlayerInfo, PlayerInfoView, StartPlayer, StartPlayerView, MAX_CABLE_PLAYERS,
    MAX_WIRELESS_PLAYERS, ROOM_CODE_ALPHABET, ROOM_CODE_LEN,
};
use crate::text::{
    ascii_upper, chars_of, decimal, hex_digits, push_decimal, push_hex, text_from,
};
use crate::ui::lobby::have_all;
use crate::ui::play::maybe;

pub mod laws;

verus! {

/// How often a merge looks whether the pump has swapped a running link out for
/// its solo continuation, and how long it waits in between.
pub const UNPLUG_WAIT_TRIES: usize = 100;

pub const UNPLUG_WAIT_MS: u32 = 50;

/// The roster mirror the panel renders.
#[derive(Debug)]
pub struct LobbyUi {
    pub code: Option<String>,
    pub players: Vec<PlayerInfo>,
    pub my_idx: usize,
    /// A merge is in flight (capture, mesh, exchange).
    pub starting: bool,
    pub status: Option<String>,
    /// This client created the room (vs. joined one): drives the code auto-copy
    /// when the server assigns it. Known at lobby start, unlike `my_idx`, which
    /// is 0 until the first roster.
    pub created: bool,
}

/// What a [`LobbyUi`] says.
#[verifier::ext_equal]
pub struct LobbyUiView {
    pub code: Option<Seq<char>>,
    pub players: Seq<PlayerInfoView>,
    pub my_idx: nat,
    pub starting: bool,
    pub status: Option<Seq<char>>,
    pub created: bool,
}

impl View for LobbyUi {
    type V = LobbyUiView;

    open spec fn view(&self) -> LobbyUiView {
        LobbyUiView {
            code: maybe(self.code),
            players: player_infos_view(self.players@),
            my_idx: self.my_idx as nat,
            starting: self.starting,
            status: maybe(self.status),
            created: self.created,
        }
    }
}

/// A mirror that knows nothing yet.
pub open spec fn fresh_ui(created: bool) -> LobbyUiView {
    LobbyUiView {
        code: None,
        players: Seq::empty(),
        my_idx: 0,
        starting: false,
        status: None,
        created,
    }
}

impl LobbyUi {
    fn fresh(created: bool) -> (ui: LobbyUi)
        ensures
            ui@ == fresh_ui(created),
    {
        let ui = LobbyUi {
            code: None,
            players: Vec::new(),
            my_idx: 0,
            starting: false,
            status: None,
            created,
        };
        assert(ui@ =~= fresh_ui(created));
        ui
    }
}

/// The link panel.
#[derive(Debug)]
pub struct Cable {
    /// `None` = not in a room.
    pub ui: Option<LobbyUi>,
    /// Why the cable last unplugged, or the lobby last failed.
    pub notice: Option<String>,
    pub panel_open: bool,
    /// Whether there is a room to send commands to.
    pub live: bool,
}

/// What a [`Cable`] says.
#[verifier::ext_equal]
pub struct CableView {
    pub ui: Option<LobbyUiView>,
    pub notice: Option<Seq<char>>,
    pub panel_open: bool,
    pub live: bool,
}

/// What a mirror says, where there is one.
pub open spec fn ui_view(ui: Option<LobbyUi>) -> Option<LobbyUiView> {
    match ui {
        Some(ui) => Some(ui@),
        None => None,
    }
}

impl View for Cable {
    type V = CableView;

    open spec fn view(&self) -> CableView {
        CableView {
            ui: ui_view(self.ui),
            notice: maybe(self.notice),
            panel_open: self.panel_open,
            live: self.live,
        }
    }
}

/// What the drain sees of the running machine.
#[derive(Debug, Clone, Copy, PartialEq, Eq, Structural)]
pub struct MachineState {
    /// `None` where nothing runs.
    pub kind: Option<SessionKind>,
    pub paused: bool,
}

// ---------------------------------------------------------------------
// The drain
// ---------------------------------------------------------------------

/// What became of the machine's capture.
#[derive(Debug)]
pub enum CaptureOutcome {
    Blob(Vec<u8>),
    Failed(String),
    /// The game ended, or the link never came apart.
    Gone,
}

/// What happens to a room's drain.
#[derive(Debug)]
pub enum DrainInput {
    Event(LobbyEvent),
    /// The capture asked for is here.
    Capture(CaptureOutcome),
    /// The ROMs of a ready session cannot be had.
    RomsFailed(String),
    /// The ready session was plugged in, or not.
    Plugged(Result<(), String>),
    /// The event stream is over: the room was left, or the server closed it.
    Ended,
}

/// What became of a capture, in views.
pub enum CaptureView {
    Blob(Seq<u8>),
    Failed(Seq<char>),
    Gone,
}

/// What a [`DrainInput`] says.
pub enum DrainInputView {
    Event(LobbyEventView),
    Capture(CaptureView),
    RomsFailed(Seq<char>),
    Plugged(Option<Seq<char>>),
    Ended,
}

impl View for DrainInput {
    type V = DrainInputView;

    open spec fn view(&self) -> DrainInputView {
        match *self {
            DrainInput::Event(e) => DrainInputView::Event(e@),
            DrainInput::Capture(c) => DrainInputView::Capture(
                match c {
                    CaptureOutcome::Blob(b) => CaptureView::Blob(b@),
                    CaptureOutcome::Failed(t) => CaptureView::Failed(t@),
                    CaptureOutcome::Gone => CaptureView::Gone,
                },
            ),
            DrainInput::RomsFailed(t) => DrainInputView::RomsFailed(t@),
            DrainInput::Plugged(r) => DrainInputView::Plugged(
                match r {
                    Ok(_) => None,
                    Err(t) => Some(t@),
                },
            ),
            DrainInput::Ended => DrainInputView::Ended,
        }
    }
}

/// What a drain does.
#[derive(Debug)]
pub enum DrainOutput {
    Send(LobbyCommand),
    /// Let the (possibly frozen) machine run again.
    Resume,
    /// Pull the running machine's cable.
    Unplug,
    /// Capture the machine, once it runs solo.
    Capture,
    /// Resolve every player's ROM and plug the session in.
    PlugIn(SessionBundle),
    /// Read no more events.
    Stop,
}

/// What a [`DrainOutput`] says.
#[verifier::ext_equal]
pub enum DrainOutputView {
    Send(LobbyCommandView),
    Resume,
    Unplug,
    Capture,
    PlugIn(LobbyEventView),
    Stop,
}

/// What a bundle says.
pub open spec fn bundle_view(b: SessionBundle) -> LobbyEventView {
    LobbyEventView::SessionReady {
        room_code: b.room_code@,
        players: start_players_view(b.players@),
        local_player: b.local_player as nat,
        boots: boots_view(b.boots@),
    }
}

impl View for DrainOutput {
    type V = DrainOutputView;

    open spec fn view(&self) -> DrainOutputView {
        match *self {
            DrainOutput::Send(c) => DrainOutputView::Send(c@),
            DrainOutput::Resume => DrainOutputView::Resume,
            DrainOutput::Unplug => DrainOutputView::Unplug,
            DrainOutput::Capture => DrainOutputView::Capture,
            DrainOutput::PlugIn(b) => DrainOutputView::PlugIn(bundle_view(b)),
            DrainOutput::Stop => DrainOutputView::Stop,
        }
    }
}

/// What a list of outputs says.
pub open spec fn drain_outputs_view(o: Seq<DrainOutput>) -> Seq<DrainOutputView> {
    o.map_values(|o: DrainOutput| o@)
}

/// The panel after something happened, and what is done about it.
#[verifier::ext_equal]
pub struct CableStep {
    pub cable: CableView,
    pub out: Seq<DrainOutputView>,
}

/// A status line on the mirror, where there is one.
pub open spec fn with_status(c: CableView, starting: Option<bool>, status: Option<Seq<char>>) -> CableView {
    CableView {
        ui: match c.ui {
            Some(ui) => Some(
                LobbyUiView {
                    starting: match starting {
                        Some(s) => s,
                        None => ui.starting,
                    },
                    status,
                    ..ui
                },
            ),
            None => None,
        },
        ..c
    }
}

/// A failure that ends our membership: the machine runs again, and the reason
/// shows in the panel.
pub open spec fn link_failure(c: CableView, why: Seq<char>) -> CableStep {
    CableStep {
        cable: CableView { ui: None, notice: Some(why), live: false, ..c },
        out: seq![DrainOutputView::Resume, DrainOutputView::Stop],
    }
}

/// Whether a library, where there is one, holds every ROM of a roster.
pub open spec fn library_has_all(
    players: Seq<PlayerInfoView>,
    roms: Option<Seq<RomInfoView>>,
) -> bool {
    match roms {
        Some(r) => have_all(players, r),
        None => players.len() == 0,
    }
}

/// Whether the machine is frozen without a merge being in flight: a wireless
/// continuation held for the re-merge.
pub open spec fn is_held(c: CableView, m: MachineState) -> bool {
    !(c.ui matches Some(ui) && ui.starting) && m.kind is Some && m.paused
}

/// A roster came. Whether this side holds every ROM in it is reported, where
/// the roster says otherwise. A held machine is let go once nobody else is
/// there to merge with.
pub open spec fn on_roster(
    c: CableView,
    players: Seq<PlayerInfoView>,
    your_idx: nat,
    m: MachineState,
    roms: Option<Seq<RomInfoView>>,
) -> CableStep {
    let complete = library_has_all(players, roms);
    let agrees = your_idx < players.len() && players[your_idx as int].ready == complete;
    let held = is_held(c, m);
    let keep_status = held && players.len() >= 2;
    CableStep {
        cable: CableView {
            ui: match c.ui {
                Some(ui) => Some(
                    LobbyUiView {
                        players,
                        my_idx: your_idx,
                        status: if !ui.starting && !keep_status {
                            None
                        } else {
                            ui.status
                        },
                        ..ui
                    },
                ),
                None => None,
            },
            ..c
        },
        out: (if agrees {
            Seq::empty()
        } else {
            seq![DrainOutputView::Send(LobbyCommandView::SetReady { ready: complete })]
        }) + (if held && players.len() < 2 {
            seq![DrainOutputView::Resume]
        } else {
            Seq::empty()
        }),
    }
}

/// What the drain does with an event of the lobby.
pub open spec fn on_event(
    c: CableView,
    e: LobbyEventView,
    m: MachineState,
    roms: Option<Seq<RomInfoView>>,
) -> CableStep {
    let netplay = m.kind == Some(SessionKind::Netplay);
    match e {
        LobbyEventView::Joined { code } => CableStep {
            cable: CableView {
                ui: match c.ui {
                    Some(ui) => Some(LobbyUiView { code: Some(code), status: None, ..ui }),
                    None => None,
                },
                ..c
            },
            out: Seq::empty(),
        },
        LobbyEventView::Roster { players, your_idx } => on_roster(c, players, your_idx, m, roms),
        LobbyEventView::Error(t) => CableStep {
            cable: with_status(c, None, Some(t)),
            out: Seq::empty(),
        },
        LobbyEventView::Starting => CableStep {
            cable: with_status(c, Some(true), Some("Linking up…"@)),
            out: if netplay {
                seq![DrainOutputView::Unplug, DrainOutputView::Capture]
            } else {
                seq![DrainOutputView::Capture]
            },
        },
        LobbyEventView::Connecting(t) => CableStep {
            cable: with_status(c, Some(true), Some(t)),
            out: Seq::empty(),
        },
        LobbyEventView::MergeFailed(t) => CableStep {
            cable: with_status(c, Some(false), Some(t)),
            out: seq![DrainOutputView::Resume],
        },
        LobbyEventView::Kicked => {
            let f = link_failure(c, "The room's creator removed you."@);
            CableStep {
                out: (if netplay {
                    seq![DrainOutputView::Unplug]
                } else {
                    Seq::empty()
                }) + f.out,
                ..f
            }
        },
        LobbyEventView::Fatal(t) => link_failure(c, t),
        LobbyEventView::SessionReady { .. } => CableStep {
            cable: c,
            out: seq![DrainOutputView::PlugIn(e)],
        },
    }
}

/// What the drain does with what happened.
pub open spec fn drain_step(
    c: CableView,
    input: DrainInputView,
    m: MachineState,
    roms: Option<Seq<RomInfoView>>,
) -> CableStep {
    match input {
        DrainInputView::Event(e) => on_event(c, e, m, roms),
        DrainInputView::Capture(CaptureView::Blob(b)) => CableStep {
            cable: c,
            out: seq![DrainOutputView::Send(LobbyCommandView::Boot(b))],
        },
        DrainInputView::Capture(CaptureView::Failed(t)) => link_failure(
            c,
            "couldn't capture the machine: "@ + t,
        ),
        DrainInputView::Capture(CaptureView::Gone) => link_failure(
            c,
            "the game ended before the room linked up"@,
        ),
        DrainInputView::RomsFailed(t) => link_failure(c, t),
        DrainInputView::Plugged(None) => CableStep {
            cable: CableView { notice: None, ..with_status(c, Some(false), None) },
            out: Seq::empty(),
        },
        DrainInputView::Plugged(Some(t)) => link_failure(c, "couldn't link up: "@ + t),
        DrainInputView::Ended => CableStep {
            cable: CableView { ui: None, live: false, ..c },
            out: seq![DrainOutputView::Resume, DrainOutputView::Stop],
        },
    }
}

fn push_out(out: &mut Vec<DrainOutput>, o: DrainOutput)
    ensures
        drain_outputs_view(final(out)@) == drain_outputs_view(old(out)@).push(o@),
{
    out.push(o);
    assert(drain_outputs_view(out@) =~= drain_outputs_view(old(out)@).push(o@));
}

/// What a library says, where there is one.
pub open spec fn library_view(l: Option<&Library>) -> Option<Seq<RomInfoView>> {
    match l {
        Some(l) => Some(roms_view(l.roms@)),
        None => None,
    }
}

fn holds_all(players: &Vec<PlayerInfo>, library: Option<&Library>) -> (b: bool)
    ensures
        b == library_has_all(player_infos_view(players@), library_view(library)),
{
    let ghost pv = player_infos_view(players@);
    match library {
        None => players.len() == 0,
        Some(l) => {
            let mut i: usize = 0;
            while i < players.len()
                invariant
                    i <= players@.len(),
                    pv == player_infos_view(players@),
                    library_view(library) == Some(roms_view(l.roms@)),
                    forall|k: int|
                        0 <= k < i ==> holds(roms_view(l.roms@), (#[trigger] pv[k]).rom_crc32),
                decreases players@.len() - i,
            {
                assert(pv[i as int] == players@[i as int]@);
                if l.by_crc32(players[i].rom_crc32).is_none() {
                    assert(!holds(roms_view(l.roms@), pv[i as int].rom_crc32));
                    return false;
                }
                i = i + 1;
            }
            true
        },
    }
}

impl Cable {
    fn set_status(&mut self, starting: Option<bool>, status: Option<String>)
        ensures
            final(self)@ == with_status(old(self)@, starting, maybe(status)),
    {
        match &mut self.ui {
            Some(ui) => {
                match starting {
                    Some(s) => {
                        ui.starting = s;
                    },
                    None => {},
                }
                ui.status = status;
            },
            None => {},
        }
    }

    fn fail(&mut self, why: String, out: &mut Vec<DrainOutput>)
        ensures
            final(self)@ == link_failure(old(self)@, why@).cable,
            drain_outputs_view(final(out)@) == drain_outputs_view(old(out)@) + link_failure(
                old(self)@,
                why@,
            ).out,
    {
        let ghost before = drain_outputs_view(out@);
        push_out(out, DrainOutput::Resume);
        push_out(out, DrainOutput::Stop);
        assert(drain_outputs_view(out@) =~= before + seq![
            DrainOutputView::Resume,
            DrainOutputView::Stop,
        ]);
        self.notice = Some(why);
        self.live = false;
        self.ui = None;
    }

    fn handle_roster(
        &mut self,
        players: Vec<PlayerInfo>,
        your_idx: usize,
        machine: MachineState,
        library: Option<&Library>,
        out: &mut Vec<DrainOutput>,
    )
        requires
            drain_outputs_view(old(out)@) == Seq::<DrainOutputView>::empty(),
        ensures
            ({
                let s = on_roster(
                    old(self)@,
                    player_infos_view(players@),
                    your_idx as nat,
                    machine,
                    library_view(library),
                );
                &&& final(self)@ == s.cable
                &&& drain_outputs_view(final(out)@) == s.out
            }),
    {
        let ghost was = self@;
        let ghost pv = player_infos_view(players@);
        let complete = holds_all(&players, library);
        if your_idx < players.len() {
            assert(pv[your_idx as int] == players@[your_idx as int]@);
        }
        let agrees = your_idx < players.len() && players[your_idx].ready == complete;
        if !agrees {
            push_out(out, DrainOutput::Send(LobbyCommand::SetReady { ready: complete }));
        }
        let starting = match &self.ui {
            Some(ui) => ui.starting,
            None => false,
        };
        let held = !starting && machine.kind.is_some() && machine.paused;
        if held && players.len() < 2 {
            push_out(out, DrainOutput::Resume);
        }
        let keep_status = held && players.len() >= 2;
        match &mut self.ui {
            Some(ui) => {
                ui.players = players;
                ui.my_idx = your_idx;
                if !ui.starting && !keep_status {
                    ui.status = None;
                }
            },
            None => {},
        }
        proof {
            let s = on_roster(was, pv, your_idx as nat, machine, library_view(library));
            assert(drain_outputs_view(out@) =~= s.out);
        }
    }

    fn handle_event(
        &mut self,
        event: LobbyEvent,
        machine: MachineState,
        library: Option<&Library>,
        out: &mut Vec<DrainOutput>,
    )
        requires
            drain_outputs_view(old(out)@) == Seq::<DrainOutputView>::empty(),
        ensures
            final(self)@ == on_event(old(self)@, event@, machine, library_view(library)).cable,
            drain_outputs_view(final(out)@) == on_event(
                old(self)@,
                event@,
                machine,
                library_view(library),
            ).out,
    {
        let ghost want = on_event(self@, event@, machine, library_view(library));
        let netplay = match machine.kind {
            Some(k) => k == SessionKind::Netplay,
            None => false,
        };
        match event {
            LobbyEvent::Joined { code } => match &mut self.ui {
                Some(ui) => {
                    ui.code = Some(code);
                    ui.status = None;
                },
                None => {},
            },
            LobbyEvent::Roster { players, your_idx } => {
                self.handle_roster(players, your_idx, machine, library, out);
            },
            LobbyEvent::Error(t) => {
                self.set_status(None, Some(t));
            },
            LobbyEvent::Starting => {
                self.set_status(Some(true), Some("Linking up…".to_owned()));
                // A running link is walked out of first: captures come only
                // from a solo machine.
                if netplay {
                    push_out(out, DrainOutput::Unplug);
                }
                push_out(out, DrainOutput::Capture);
            },
            LobbyEvent::Connecting(t) => {
                self.set_status(Some(true), Some(t));
            },
            LobbyEvent::MergeFailed(t) => {
                // The room stands; the lobby is arranging a retry.
                push_out(out, DrainOutput::Resume);
                self.set_status(Some(false), Some(t));
            },
            LobbyEvent::Kicked => {
                if netplay {
                    push_out(out, DrainOutput::Unplug);
                }
                self.fail("The room's creator removed you.".to_owned(), out);
            },
            LobbyEvent::Fatal(t) => {
                self.fail(t, out);
            },
            LobbyEvent::SessionReady(bundle) => {
                push_out(out, DrainOutput::PlugIn(bundle));
            },
        }
        assert(drain_outputs_view(out@) =~= want.out);
    }

    /// What the drain does with what happened, the machine being as it is.
    pub fn drain(
        &mut self,
        input: DrainInput,
        machine: MachineState,
        library: Option<&Library>,
    ) -> (out: Vec<DrainOutput>)
        ensures
            final(self)@ == drain_step(old(self)@, input@, machine, library_view(library)).cable,
            drain_outputs_view(out@) == drain_step(
                old(self)@,
                input@,
                machine,
                library_view(library),
            ).out,
    {
        let mut out: Vec<DrainOutput> = Vec::new();
        let ghost want = drain_step(self@, input@, machine, library_view(library));
        proof {
            assert(drain_outputs_view(out@) =~= Seq::empty());
        }
        match input {
            DrainInput::Event(e) => {
                self.handle_event(e, machine, library, &mut out);
            },
            DrainInput::Capture(CaptureOutcome::Blob(b)) => {
                push_out(&mut out, DrainOutput::Send(LobbyCommand::Boot(b)));
            },
            DrainInput::Capture(CaptureOutcome::Failed(t)) => {
                let mut why = "couldn't capture the machine: ".to_owned();
                why.append(t.as_str());
                self.fail(why, &mut out);
            },
            DrainInput::Capture(CaptureOutcome::Gone) => {
                self.fail("the game ended before the room linked up".to_owned(), &mut out);
            },
            DrainInput::RomsFailed(t) => {
                self.fail(t, &mut out);
            },
            DrainInput::Plugged(Ok(_)) => {
                // The room lives on: the next membership change brings the
                // next merge.
                self.set_status(Some(false), None);
                self.notice = None;
            },
            DrainInput::Plugged(Err(t)) => {
                let mut why = "couldn't link up: ".to_owned();
                why.append(t.as_str());
                self.fail(why, &mut out);
            },
            DrainInput::Ended => {
                // However it went, never leave the machine frozen.
                push_out(&mut out, DrainOutput::Resume);
                push_out(&mut out, DrainOutput::Stop);
                self.live = false;
                self.ui = None;
            },
        }
        assert(drain_outputs_view(out@) =~= want.out);
        out
    }

    /// Leave any running room: whether there is a room to tell.
    pub fn leave(&mut self) -> (tell: bool)
        ensures
            tell == old(self)@.live,
            final(self)@ == (CableView { ui: None, live: false, ..old(self)@ }),
    {
        let tell = self.live;
        self.live = false;
        self.ui = None;
        tell
    }

    /// The panel's leave button: leave the room, and if a merge already froze
    /// the machine for its capture, let it run again.
    pub fn leave_clicked(&mut self) -> (out: Vec<DrainOutput>)
        ensures
            final(self)@ == (CableView { ui: None, live: false, ..old(self)@ }),
            drain_outputs_view(out@) == (if old(self)@.live {
                seq![DrainOutputView::Send(LobbyCommandView::Leave), DrainOutputView::Resume]
            } else {
                seq![DrainOutputView::Resume]
            }),
    {
        let mut out: Vec<DrainOutput> = Vec::new();
        proof {
            assert(drain_outputs_view(out@) =~= Seq::<DrainOutputView>::empty());
        }
        if self.leave() {
            push_out(&mut out, DrainOutput::Send(LobbyCommand::Leave));
        }
        push_out(&mut out, DrainOutput::Resume);
        assert(drain_outputs_view(out@) =~= if old(self)@.live {
            seq![DrainOutputView::Send(LobbyCommandView::Leave), DrainOutputView::Resume]
        } else {
            seq![DrainOutputView::Resume]
        });
        out
    }

    /// Whether this machine holds a room with anyone else still in it, i.e. a
    /// re-merge is worth waiting for.
    pub fn room_has_company(&self) -> (b: bool)
        ensures
            b == (self@.ui matches Some(ui) && ui.players.len() >= 2),
    {
        match &self.ui {
            Some(ui) => ui.players.len() >= 2,
            None => false,
        }
    }

    /// The merged session died without our say-so. `held` reports that the
    /// continuation is frozen for the re-merge: the panel says why the game is
    /// standing still. Whether there is a room to tell of it.
    pub fn notify_session_dropped(&mut self, held: bool) -> (tell: bool)
        ensures
            tell == old(self)@.live,
            final(self)@ == (if held {
                with_status(old(self)@, None, Some("Player left — waiting to relink…"@))
            } else {
                old(self)@
            }),
    {
        if held {
            self.set_status(None, Some("Player left — waiting to relink…".to_owned()));
        }
        self.live
    }
}

/// Whether a merge keeps waiting for the running link to come apart.
pub fn keeps_waiting(kind: Option<SessionKind>, tries: usize) -> (b: bool)
    ensures
        b == (kind == Some(SessionKind::Netplay) && tries < UNPLUG_WAIT_TRIES),
{
    match kind {
        Some(k) => k == SessionKind::Netplay && tries < UNPLUG_WAIT_TRIES,
        None => false,
    }
}

/// Whether a merge captures the machine once the wait is over: captures come
/// only from a solo one, and otherwise the machine is [`CaptureOutcome::Gone`].
pub fn captures(kind: Option<SessionKind>) -> (b: bool)
    ensures
        b == (kind == Some(SessionKind::Local)),
{
    match kind {
        Some(k) => k == SessionKind::Local,
        None => false,
    }
}

// ---------------------------------------------------------------------
// Opening a room
// ---------------------------------------------------------------------

/// What a lobby is opened with.
pub open spec fn opens(
    a: LobbyArgs,
    server_url: Seq<char>,
    nick: Seq<char>,
    rom_crc32: u32,
    rom_title: Seq<char>,
    link: LinkKind,
    mode: LobbyMode,
) -> bool {
    &&& a.server_url@ == server_url
    &&& a.nick@ == nick
    &&& a.rom_crc32 == rom_crc32
    &&& a.rom_title@ == rom_title
    &&& a.wireless == (link == LinkKind::Wireless)
    &&& a.mode == mode
}

/// What keeps a session from opening a room.
pub open spec fn lobby_obstacle(
    port: Option<(LinkKind, Option<u32>)>,
    roms: Option<Seq<RomInfoView>>,
) -> Option<Seq<char>> {
    match port {
        Some((_, Some(crc))) => if roms matches Some(r) && holds(r, crc) {
            None
        } else {
            Some("this game's ROM is missing from the library"@)
        },
        _ => Some("this session can't host a link"@),
    }
}

impl Cable {
    /// Open a room from the running solo session's link panel. `port` is what
    /// the running session has on its link port, and the ROM it runs. The game
    /// keeps running; the link merges as members arrive. The wire carries
    /// stable cartridge metadata: the header title, not the library's name.
    pub fn start_lobby(
        &mut self,
        server_url: String,
        nick: String,
        port: Option<(LinkKind, Option<u32>)>,
        library: Option<&Library>,
        mode: LobbyMode,
    ) -> (args: Option<LobbyArgs>)
        ensures
            old(self)@.ui is Some ==> args is None && final(self)@ == old(self)@,
            old(self)@.ui is None ==> match lobby_obstacle(port, library_view(library)) {
                Some(why) => args is None && final(self)@ == (CableView {
                    notice: Some(why),
                    ..old(self)@
                }),
                None => {
                    let roms = library_view(library).unwrap();
                    let crc = port.unwrap().1.unwrap();
                    let rom = roms[crate::library::crc_at(roms, crc) as int];
                    &&& args matches Some(a) && opens(
                        a,
                        server_url@,
                        nick@,
                        crc,
                        rom.title,
                        port.unwrap().0,
                        mode,
                    )
                    &&& final(self)@ == (CableView {
                        ui: Some(fresh_ui(mode is Create)),
                        notice: None,
                        panel_open: true,
                        live: true,
                    })
                },
            },
    {
        if self.ui.is_some() {
            return None;
        }
        let (link, crc) = match port {
            Some((link, Some(crc))) => (link, crc),
            _ => {
                self.notice = Some("this session can't host a link".to_owned());
                return None;
            },
        };
        let found = match library {
            Some(l) => l.by_crc32(crc),
            None => None,
        };
        let info = match found {
            Some(i) => i,
            None => {
                self.notice = Some("this game's ROM is missing from the library".to_owned());
                return None;
            },
        };
        let created = match &mode {
            LobbyMode::Create => true,
            LobbyMode::Join { .. } => false,
        };
        let args = LobbyArgs {
            server_url,
            nick,
            rom_crc32: info.crc32,
            rom_title: info.title.as_str().to_owned(),
            wireless: link == LinkKind::Wireless,
            mode,
        };
        self.notice = None;
        self.ui = Some(LobbyUi::fresh(created));
        self.panel_open = true;
        self.live = true;
        Some(args)
    }
}

// ---------------------------------------------------------------------
// The ROMs of a ready session
// ---------------------------------------------------------------------

/// What is said of a ROM nobody here has.
pub open spec fn missing_text(p: StartPlayerView) -> Seq<char> {
    "missing a copy of "@ + p.nick + "'s ROM (crc32 "@ + hex_digits(p.rom_crc32 as nat, 8) + ")"@
}

/// What keeps a player's ROM from being had: that the library has none, or that
/// it cannot be read.
pub open spec fn rom_fault(
    p: StartPlayerView,
    roms: Seq<RomInfoView>,
    read: Result<Vec<u8>, String>,
) -> Option<Seq<char>> {
    if !holds(roms, p.rom_crc32) {
        Some(missing_text(p))
    } else {
        match read {
            Ok(_) => None,
            Err(t) => Some(t@),
        }
    }
}

/// The first fault, from a position on.
pub open spec fn first_fault(
    players: Seq<StartPlayerView>,
    roms: Seq<RomInfoView>,
    reads: Seq<Result<Vec<u8>, String>>,
    i: int,
) -> Option<Seq<char>>
    decreases players.len() - i,
{
    if i >= players.len() {
        None
    } else if rom_fault(players[i], roms, reads[i]) is Some {
        rom_fault(players[i], roms, reads[i])
    } else {
        first_fault(players, roms, reads, i + 1)
    }
}

/// What keeps the ROMs of a ready session from being had: that there is nowhere
/// to read them from, or the first fault among them.
pub open spec fn roms_fault(
    players: Seq<StartPlayerView>,
    roms: Seq<RomInfoView>,
    reads: Option<&Vec<Result<Vec<u8>, String>>>,
) -> Option<Seq<char>> {
    match reads {
        None => Some("storage unavailable"@),
        Some(reads) => first_fault(players, roms, reads@, 0),
    }
}

/// Every player's ROM, out of the library by CRC32, in player order; or what
/// keeps them from being had. `reads` is what reading each player's ROM came to,
/// where the library holds it; `None` where there is no storage.
pub fn resolve_roms(
    players: &Vec<StartPlayer>,
    library: &Library,
    reads: Option<&Vec<Result<Vec<u8>, String>>>,
) -> (r: Result<Vec<Vec<u8>>, String>)
    requires
        reads matches Some(reads) ==> reads@.len() == players@.len(),
    ensures
        match r {
            Err(t) => roms_fault(
                start_players_view(players@),
                roms_view(library.roms@),
                reads,
            ) == Some(t@),
            Ok(roms) => {
                let reads = reads.unwrap();
                &&& roms_fault(
                    start_players_view(players@),
                    roms_view(library.roms@),
                    Some(reads),
                ) is None
                &&& roms@.len() == players@.len()
                &&& forall|i: int|
                    0 <= i < players@.len() ==> (#[trigger] reads@[i]) is Ok && roms@[i]@
                        == reads@[i].unwrap()@
            },
        },
{
    let found = match reads {
        Some(found) => found,
        None => {
            return Err("storage unavailable".to_owned());
        },
    };
    let ghost pv = start_players_view(players@);
    let ghost rv = roms_view(library.roms@);
    let mut roms: Vec<Vec<u8>> = Vec::new();
    let mut i: usize = 0;
    while i < players.len()
        invariant
            i <= players@.len(),
            reads == Some(found),
            found@.len() == players@.len(),
            pv == start_players_view(players@),
            rv == roms_view(library.roms@),
            first_fault(pv, rv, found@, 0) == first_fault(pv, rv, found@, i as int),
            roms@.len() == i,
            forall|k: int|
                0 <= k < i ==> (#[trigger] found@[k]) is Ok && roms@[k]@ == found@[k].unwrap()@,
        decreases players@.len() - i,
    {
        let player = &players[i];
        assert(pv[i as int] == player@);
        if library.by_crc32(player.rom_crc32).is_none() {
            let mut t = "missing a copy of ".to_owned();
            t.append(player.nick.as_str());
            t.append("'s ROM (crc32 ");
            push_hex(&mut t, player.rom_crc32, 8);
            t.append(")");
            assert(t@ == missing_text(player@));
            return Err(t);
        }
        match &found[i] {
            Ok(b) => {
                roms.push(crate::bytes::to_vec(b.as_slice()));
            },
            Err(t) => {
                return Err(t.as_str().to_owned());
            },
        }
        i = i + 1;
    }
    Ok(roms)
}

// ---------------------------------------------------------------------
// The panel's body
// ---------------------------------------------------------------------

/// What a seat's row says beside its name.
#[derive(Debug, Clone, Copy, PartialEq, Eq, Structural)]
pub enum SeatNote {
    You,
    /// *I* lack this seat's game.
    MissingThisRom,
    /// The seat hasn't reported holding every ROM in the roster.
    MissingARom,
    Nothing,
}

/// A row of the room's roster.
#[derive(Debug)]
pub enum RoomRow {
    Seat {
        name: String,
        game: String,
        note: SeatNote,
        /// The creator's eject control, by the seat's stable token.
        kick: Option<u32>,
    },
    Open,
}

/// What a [`RoomRow`] says.
#[verifier::ext_equal]
pub enum RoomRowView {
    Seat { name: Seq<char>, game: Seq<char>, note: SeatNote, kick: Option<u32> },
    Open,
}

impl View for RoomRow {
    type V = RoomRowView;

    open spec fn view(&self) -> RoomRowView {
        match *self {
            RoomRow::Seat { name, game, note, kick } => RoomRowView::Seat {
                name: name@,
                game: game@,
                note,
                kick,
            },
            RoomRow::Open => RoomRowView::Open,
        }
    }
}

/// What a roster says.
pub open spec fn room_rows_view(r: Seq<RoomRow>) -> Seq<RoomRowView> {
    r.map_values(|r: RoomRow| r@)
}

/// The friendly name of a seat's game: the library's, else the DAT's (which
/// knows names for ROMs the library doesn't hold), else the header title.
pub open spec fn friendly_name(
    p: PlayerInfoView,
    roms: Seq<RomInfoView>,
    dat: Map<u32, Seq<char>>,
) -> Seq<char> {
    if holds(roms, p.rom_crc32) {
        crate::ui::lobby::title_of(p, roms)
    } else if dat.contains_key(p.rom_crc32) {
        dat[p.rom_crc32]
    } else {
        p.rom_title
    }
}

/// The row of the seat at a position.
pub open spec fn room_row(
    ui: LobbyUiView,
    i: int,
    roms: Seq<RomInfoView>,
    dat: Map<u32, Seq<char>>,
) -> RoomRowView {
    if i < ui.players.len() {
        let p = ui.players[i];
        RoomRowView::Seat {
            name: if p.nick.len() == 0 {
                "Player "@ + decimal((i + 1) as nat)
            } else {
                p.nick
            },
            game: friendly_name(p, roms, dat),
            note: if i == ui.my_idx {
                SeatNote::You
            } else if !holds(roms, p.rom_crc32) {
                SeatNote::MissingThisRom
            } else if !p.ready {
                SeatNote::MissingARom
            } else {
                SeatNote::Nothing
            },
            kick: if ui.my_idx == 0 && i != 0 && !ui.starting {
                Some(p.seat)
            } else {
                None
            },
        }
    } else {
        RoomRowView::Open
    }
}

/// How many seats a room's peripheral offers.
pub open spec fn seats(wireless: bool) -> nat {
    if wireless {
        MAX_WIRELESS_PLAYERS as nat
    } else {
        MAX_CABLE_PLAYERS as nat
    }
}

/// The room's roster: every seat the room's peripheral offers, the unfilled
/// ones as open slots.
pub fn room_rows(ui: &LobbyUi, library: &Library, dat: &DatIndex, wireless: bool) -> (rows: Vec<
    RoomRow,
>)
    ensures
        room_rows_view(rows@) == Seq::new(
            seats(wireless),
            |i: int| room_row(ui@, i, roms_view(library.roms@), dat@),
        ),
{
    let ghost uv = ui@;
    let ghost rv = roms_view(library.roms@);
    let n: usize = max_players(wireless);
    let mut rows: Vec<RoomRow> = Vec::new();
    let mut i: usize = 0;
    while i < n
        invariant
            i <= n,
            n == seats(wireless),
            n <= MAX_WIRELESS_PLAYERS,
            uv == ui@,
            rv == roms_view(library.roms@),
            rows@.len() == i,
            forall|k: int| 0 <= k < i ==> (#[trigger] rows@[k])@ == room_row(uv, k, rv, dat@),
        decreases n - i,
    {
        if i < ui.players.len() {
            let p = &ui.players[i];
            assert(uv.players[i as int] == p@);
            let mine = library.by_crc32(p.rom_crc32);
            let have = mine.is_some();
            let game: String = match mine {
                Some(r) => r.display_name().to_owned(),
                None => match dat.lookup(p.rom_crc32) {
                    Some(n) => n.to_owned(),
                    None => p.rom_title.as_str().to_owned(),
                },
            };
            let nick = chars_of(p.nick.as_str());
            let name: String = if nick.len() == 0 {
                let mut t = "Player ".to_owned();
                push_decimal(&mut t, i as u64 + 1);
                t
            } else {
                p.nick.as_str().to_owned()
            };
            let note = if i == ui.my_idx {
                SeatNote::You
            } else if !have {
                SeatNote::MissingThisRom
            } else if !p.ready {
                SeatNote::MissingARom
            } else {
                SeatNote::Nothing
            };
            let kick: Option<u32> = if ui.my_idx == 0 && i != 0 && !ui.starting {
                Some(p.seat)
            } else {
                None
            };
            rows.push(RoomRow::Seat { name, game, note, kick });
        } else {
            rows.push(RoomRow::Open);
        }
        i = i + 1;
    }
    assert(room_rows_view(rows@) =~= Seq::new(
        seats(wireless),
        |i: int| room_row(uv, i, rv, dat@),
    ));
    rows
}

/// Whether every member reports holding every ROM, and we do hold them.
pub open spec fn room_complete(ui: LobbyUiView, roms: Seq<RomInfoView>) -> bool {
    &&& forall|i: int| 0 <= i < ui.players.len() ==> (#[trigger] ui.players[i]).ready
    &&& have_all(ui.players, roms)
}

fn is_complete(ui: &LobbyUi, library: &Library) -> (b: bool)
    ensures
        b == room_complete(ui@, roms_view(library.roms@)),
{
    let ghost pv = ui@.players;
    let mut i: usize = 0;
    while i < ui.players.len()
        invariant
            i <= ui.players@.len(),
            pv == player_infos_view(ui.players@),
            pv == ui@.players,
            forall|k: int| 0 <= k < i ==> (#[trigger] pv[k]).ready,
        decreases ui.players@.len() - i,
    {
        assert(pv[i as int] == ui.players@[i as int]@);
        if !ui.players[i].ready {
            return false;
        }
        i = i + 1;
    }
    holds_all(&ui.players, Some(library))
}

/// Position 0's link-up control.
#[derive(Debug, Clone, Copy, PartialEq, Eq, Structural)]
pub enum LinkUp {
    /// Not ours to press: wireless rooms merge on their own, and cable rooms
    /// wait for their creator.
    Hidden,
    Blocked,
    Ready,
}

/// Position 0's link-up control: linkable once anyone else is in and every seat
/// holds every ROM.
pub open spec fn link_up_of(
    ui: Option<LobbyUiView>,
    cable: bool,
    roms: Seq<RomInfoView>,
) -> LinkUp {
    match ui {
        Some(ui) if cable && ui.my_idx == 0 => if ui.code is None || ui.starting
            || ui.players.len() < 2 || !room_complete(ui, roms) {
            LinkUp::Blocked
        } else {
            LinkUp::Ready
        },
        _ => LinkUp::Hidden,
    }
}

/// The line under the roster. An empty one still takes its place.
pub open spec fn status_line(ui: LobbyUiView, cable: bool, roms: Seq<RomInfoView>) -> Seq<char> {
    match ui.status {
        Some(s) => s,
        None => if ui.code is Some && !ui.starting {
            if cable && ui.my_idx != 0 {
                "Waiting for the room's creator to link up."@
            } else if ui.players.len() < 2 {
                if cable {
                    "Share the code — link up when everyone's in."@
                } else {
                    "Share the code — players merge in as they arrive."@
                }
            } else if !room_complete(ui, roms) {
                "Someone is missing a ROM."@
            } else {
                ""@
            }
        } else {
            ""@
        },
    }
}

impl Cable {
    /// Position 0's link-up control, the session having a cable or not.
    pub fn link_up(&self, cable: bool, library: &Library) -> (l: LinkUp)
        ensures
            l == link_up_of(self@.ui, cable, roms_view(library.roms@)),
    {
        match &self.ui {
            Some(ui) => {
                if !cable || ui.my_idx != 0 {
                    LinkUp::Hidden
                } else if ui.code.is_none() || ui.starting || ui.players.len() < 2 || !is_complete(
                    ui,
                    library,
                ) {
                    LinkUp::Blocked
                } else {
                    LinkUp::Ready
                }
            },
            None => LinkUp::Hidden,
        }
    }

    /// The link-up control was pressed: whether there is a room to tell.
    pub fn press_link_up(&mut self) -> (tell: bool)
        ensures
            tell == old(self)@.live,
            final(self)@ == with_status(old(self)@, Some(true), Some("Linking up…"@)),
    {
        self.set_status(Some(true), Some("Linking up…".to_owned()));
        self.live
    }
}

/// The line under the roster.
pub fn cable_status(ui: &LobbyUi, link: LinkKind, library: &Library) -> (t: String)
    ensures
        t@ == status_line(ui@, link == LinkKind::Cable, roms_view(library.roms@)),
{
    let cable = link == LinkKind::Cable;
    match &ui.status {
        Some(s) => s.as_str().to_owned(),
        None => {
            if ui.code.is_some() && !ui.starting {
                if cable && ui.my_idx != 0 {
                    "Waiting for the room's creator to link up.".to_owned()
                } else if ui.players.len() < 2 {
                    if cable {
                        "Share the code — link up when everyone's in.".to_owned()
                    } else {
                        "Share the code — players merge in as they arrive.".to_owned()
                    }
                } else if !is_complete(ui, library) {
                    "Someone is missing a ROM.".to_owned()
                } else {
                    "".to_owned()
                }
            } else {
                "".to_owned()
            }
        },
    }
}

// ---------------------------------------------------------------------
// Typing a code
// ---------------------------------------------------------------------

/// A character's uppercase, for one that is not ASCII.
pub uninterp spec fn uppercase_of(c: char) -> Seq<char>;

/// std's `char::to_uppercase`, its characters in a list. An ASCII character has
/// one, which is its ASCII uppercase; what others have is left to the name.
#[verifier::external_body]
fn to_uppercase(c: char) -> (u: Vec<char>)
    ensures
        c as u32 <= 127 ==> u@ == seq![ascii_upper(c)],
        c as u32 > 127 ==> u@ == uppercase_of(c),
{
    c.to_uppercase().collect()
}

/// The uppercase of a text, character by character.
pub open spec fn uppered(s: Seq<char>) -> Seq<char>
    decreases s.len(),
{
    if s.len() == 0 {
        Seq::empty()
    } else {
        let c = s.last();
        uppered(s.drop_last()) + (if c as u32 <= 127 {
            seq![ascii_upper(c)]
        } else {
            uppercase_of(c)
        })
    }
}

/// Whether a character can stand in a room code.
pub open spec fn is_code_char() -> spec_fn(char) -> bool {
    |c: char| ROOM_CODE_ALPHABET@.contains(c)
}

/// What is left of a text as a code being typed: the first characters of it
/// that can stand in one, as many as a code has.
pub open spec fn code_chars(s: Seq<char>) -> Seq<char> {
    let kept = s.filter(is_code_char());
    if kept.len() > ROOM_CODE_LEN {
        kept.take(ROOM_CODE_LEN as int)
    } else {
        kept
    }
}

fn can_stand(c: char) -> (b: bool)
    ensures
        b == ROOM_CODE_ALPHABET@.contains(c),
{
    let mut i: usize = 0;
    while i < 31
        invariant
            i <= 31,
            forall|k: int| 0 <= k < i ==> ROOM_CODE_ALPHABET@[k] != c,
        decreases 31 - i,
    {
        if ROOM_CODE_ALPHABET[i] == c {
            assert(ROOM_CODE_ALPHABET@[i as int] == c);
            return true;
        }
        i = i + 1;
    }
    false
}

/// What is left of an uppercase text as a code being typed.
pub fn keep_code_chars(upper: &[char]) -> (t: String)
    ensures
        t@ == code_chars(upper@),
{
    let ghost keep = is_code_char();
    let mut kept: Vec<char> = Vec::new();
    let mut i: usize = 0;
    proof {
        reveal(Seq::filter);
        assert(upper@.take(0).filter(keep) =~= kept@);
    }
    while i < upper.len()
        invariant
            i <= upper@.len(),
            keep == is_code_char(),
            kept@ == upper@.take(i as int).filter(keep),
        decreases upper@.len() - i,
    {
        proof {
            reveal(Seq::filter);
            assert(upper@.take(i + 1).drop_last() =~= upper@.take(i as int));
        }
        if can_stand(upper[i]) {
            kept.push(upper[i]);
        }
        i = i + 1;
    }
    assert(upper@.take(i as int) =~= upper@);
    if kept.len() > ROOM_CODE_LEN {
        let part = vstd::slice::slice_subrange(kept.as_slice(), 0, ROOM_CODE_LEN);
        assert(part@ =~= kept@.take(ROOM_CODE_LEN as int));
        text_from(part)
    } else {
        text_from(kept.as_slice())
    }
}

/// Keep room-code entry aligned with the server's ambiguity-free alphabet and
/// the length of its codes.
pub fn sanitize_room_code(input: &str) -> (t: String)
    ensures
        t@ == code_chars(uppered(input@)),
{
    let chars = chars_of(input);
    let mut upper: Vec<char> = Vec::new();
    let mut i: usize = 0;
    proof {
        assert(uppered(chars@.take(0)) =~= upper@);
    }
    while i < chars.len()
        invariant
            i <= chars@.len(),
            upper@ == uppered(chars@.take(i as int)),
        decreases chars@.len() - i,
    {
        let mut u = to_uppercase(chars[i]);
        proof {
            assert(chars@.take(i + 1).drop_last() =~= chars@.take(i as int));
            assert(chars@.take(i + 1).last() == chars@[i as int]);
        }
        upper.append(&mut u);
        i = i + 1;
    }
    assert(chars@.take(i as int) =~= chars@);
    keep_code_chars(upper.as_slice())
}

/// Whether an entered code is joined with: an incomplete one is a no-op.
pub fn joins(code: &str) -> (b: bool)
    ensures
        b == (code@.len() == ROOM_CODE_LEN),
{
    let chars = chars_of(code);
    chars.len() == ROOM_CODE_LEN
}

/// What is said under the button that creates a room.
pub open spec fn create_text(link: LinkKind) -> Seq<char> {
    match link {
        LinkKind::Wireless =>
            "You'll get a code to share with the other players. They merge in as they arrive, over your wireless adapter."@,
        LinkKind::Cable =>
            "You'll get a code to share with the other players. Once everyone's in, link the cable up."@,
    }
}

/// What is said under the button that creates a room.
pub fn create_hint(link: LinkKind) -> (t: &'static str)
    ensures
        t@ == create_text(link),
{
    match link {
        LinkKind::Wireless =>
            "You'll get a code to share with the other players. They merge in as they arrive, over your wireless adapter.",
        LinkKind::Cable =>
            "You'll get a code to share with the other players. Once everyone's in, link the cable up.",
    }
}

// ---------------------------------------------------------------------
// Laws
// ---------------------------------------------------------------------

/// However a room ends, the machine is never left frozen: whatever stops the
/// drain also lets the machine run.
pub proof fn law_the_machine_is_never_left_frozen(
    c: CableView,
    input: DrainInputView,
    m: MachineState,
    roms: Option<Seq<RomInfoView>>,
)
    requires
        drain_step(c, input, m, roms).out.contains(DrainOutputView::Stop),
    ensures
        drain_step(c, input, m, roms).out.contains(DrainOutputView::Resume),
        drain_step(c, input, m, roms).cable.ui is None,
        !drain_step(c, input, m, roms).cable.live,
{
    let out = drain_step(c, input, m, roms).out;
    match input {
        DrainInputView::Event(e) => match e {
            LobbyEventView::Kicked => {
                if m.kind == Some(SessionKind::Netplay) {
                    assert(out[1] == DrainOutputView::Resume);
                } else {
                    assert(out[0] == DrainOutputView::Resume);
                }
            },
            LobbyEventView::Fatal(_) => {
                assert(out[0] == DrainOutputView::Resume);
            },
            LobbyEventView::Roster { players, your_idx } => {
                let k = choose|k: int| 0 <= k < out.len() && out[k] == DrainOutputView::Stop;
                assert(out[k] is Send || out[k] is Resume);
            },
            _ => {
                let k = choose|k: int| 0 <= k < out.len() && out[k] == DrainOutputView::Stop;
                assert(!(out[k] is Stop));
            },
        },
        DrainInputView::Capture(CaptureView::Blob(_)) => {
            let k = choose|k: int| 0 <= k < out.len() && out[k] == DrainOutputView::Stop;
            assert(out[k] is Send);
        },
        DrainInputView::Plugged(None) => {},
        _ => {
            assert(out[0] == DrainOutputView::Resume);
        },
    }
}

/// The ready report settles: once the roster says what we would report, nothing
/// more is sent.
pub proof fn law_the_ready_echo_does_not_loop(
    c: CableView,
    players: Seq<PlayerInfoView>,
    your_idx: nat,
    m: MachineState,
    roms: Option<Seq<RomInfoView>>,
)
    requires
        your_idx < players.len(),
        players[your_idx as int].ready == library_has_all(players, roms),
    ensures
        forall|k: int|
            0 <= k < on_roster(c, players, your_idx, m, roms).out.len() ==> !((
            #[trigger] on_roster(c, players, your_idx, m, roms).out[k]) is Send),
{
}

/// The room outlives its merges: plugging a session in keeps the mirror and the
/// commands live.
pub proof fn law_the_room_outlives_its_merges(
    c: CableView,
    m: MachineState,
    roms: Option<Seq<RomInfoView>>,
)
    ensures
        ({
            let s = drain_step(c, DrainInputView::Plugged(None), m, roms);
            &&& s.cable.live == c.live
            &&& s.cable.ui is Some == (c.ui is Some)
            &&& s.out.len() == 0
        }),
{
}

/// What is left of anything typed can stand in a room code, and is no longer
/// than one.
pub proof fn law_typed_codes_are_codes(s: Seq<char>)
    ensures
        code_chars(s).len() <= ROOM_CODE_LEN,
        forall|i: int|
            0 <= i < code_chars(s).len() ==> ROOM_CODE_ALPHABET@.contains(
                #[trigger] code_chars(s)[i],
            ),
{
    lemma_kept(s);
    let kept = s.filter(is_code_char());
    assert forall|i: int| 0 <= i < code_chars(s).len() implies ROOM_CODE_ALPHABET@.contains(
        #[trigger] code_chars(s)[i],
    ) by {
        assert(code_chars(s)[i] == kept[i]);
    }
}

/// Whatever was typed, a code that is joined with is one a room can have.
pub proof fn law_joined_codes_are_room_codes(s: Seq<char>)
    requires
        code_chars(s).len() == ROOM_CODE_LEN,
    ensures
        is_room_code(code_chars(s)),
{
    law_typed_codes_are_codes(s);
}

proof fn lemma_kept(s: Seq<char>)
    ensures
        forall|i: int|
            0 <= i < s.filter(is_code_char()).len() ==> ROOM_CODE_ALPHABET@.contains(
                #[trigger] s.filter(is_code_char())[i],
            ),
    decreases s.len(),
{
    reveal(Seq::filter);
    if s.len() > 0 {
        lemma_kept(s.drop_last());
        let kept = s.filter(is_code_char());
        let rest = s.drop_last().filter(is_code_char());
        assert forall|i: int| 0 <= i < kept.len() implies ROOM_CODE_ALPHABET@.contains(
            #[trigger] kept[i],
        ) by {
            if i < rest.len() {
                assert(kept[i] == rest[i]);
            }
        }
    }
}

} // verus!
