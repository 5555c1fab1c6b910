//! What holds of the link panel, said of what it hears and what it does.
use vstd::prelude::*;
use crate::library::{holds, RomInfoView};
use crate::net::lobby::{LobbyArgs, LobbyCommand, LobbyEventView, LobbyMode};
use crate::session::{LinkKind, SessionKind};
use crate::signaling::{is_room_code, PlayerInfoView, StartPlayerView};
use crate::text::{decimal, hex_digits, lowered};
use crate::ui::cable::{
    code_chars, create_text, drain_outputs_view, drain_step, first_fault, fresh_ui, is_code_char,
    lobby_obstacle, link_up_of, missing_text, opens, room_row, roms_fault, seats, status_line,
    uppered, CableStep, CableView, CaptureView, DrainInputView, DrainOutput, DrainOutputView,
    LinkUp, LobbyUiView, MachineState, RoomRowView, SeatNote,
};

verus! {

/// Whether these are what the panel does with something, and this is the panel
/// after it.
pub open spec fn does(
    c: CableView,
    input: DrainInputView,
    m: MachineState,
    roms: Option<Seq<RomInfoView>>,
    after: CableView,
    outs: Seq<DrainOutput>,
) -> bool {
    let o = drain_step(c, input, m, roms);
    o.cable == after && o.out == drain_outputs_view(outs)
}

/// Whether a library has a ROM. Without a library there is none to have.
pub open spec fn has_rom(roms: Option<Seq<RomInfoView>>, crc32: u32) -> bool {
    roms matches Some(r) && exists|k: int| 0 <= k < r.len() && (#[trigger] r[k]).crc32 == crc32
}

/// Whether a library has every player's ROM.
pub open spec fn has_every_rom(
    players: Seq<PlayerInfoView>,
    roms: Option<Seq<RomInfoView>>,
) -> bool {
    forall|i: int| 0 <= i < players.len() ==> has_rom(roms, (#[trigger] players[i]).rom_crc32)
}

// ---------------------------------------------------------------------
// What the panel hears
// ---------------------------------------------------------------------

proof fn lemma_has_all(players: Seq<PlayerInfoView>, roms: Option<Seq<RomInfoView>>)
    ensures
        has_every_rom(players, roms) == crate::ui::cable::library_has_all(players, roms),
{
    match roms {
        Some(r) => {
            assert(forall|crc: u32| #[trigger] holds(r, crc) == has_rom(roms, crc));
        },
        None => {
            if players.len() > 0 {
                assert(!has_rom(roms, players[0].rom_crc32));
            }
        },
    }
}

/// A roster is mirrored as it came. What is reported back is whether the
/// library has every ROM in it, truly, and only where the roster says otherwise
/// of this machine. A machine that was held for a merge runs on where nobody is
/// left to merge with.
pub proof fn law_rosters_are_mirrored_and_answered(
    c: CableView,
    players: Seq<PlayerInfoView>,
    your_idx: nat,
    m: MachineState,
    roms: Option<Seq<RomInfoView>>,
    after: CableView,
    outs: Seq<DrainOutput>,
)
    requires
        does(
            c,
            DrainInputView::Event(LobbyEventView::Roster { players, your_idx }),
            m,
            roms,
            after,
            outs,
        ),
    ensures
        ({
            let complete = has_every_rom(players, roms);
            let agrees = your_idx < players.len() && players[your_idx as int].ready == complete;
            let merging = c.ui matches Some(ui) && ui.starting;
            let resumes = !merging && m.kind is Some && m.paused && players.len() < 2;
            let n = if agrees {
                0int
            } else {
                1int
            };
            &&& c.ui matches Some(was) ==> (after.ui matches Some(ui) && {
                &&& ui.players == players
                &&& ui.my_idx == your_idx
                &&& ui.code == was.code
                &&& ui.starting == was.starting
                &&& ui.created == was.created
            })
            &&& c.ui is None ==> after.ui is None
            &&& after.notice == c.notice && after.live == c.live && after.panel_open
                == c.panel_open
            &&& outs.len() == n + (if resumes {
                1int
            } else {
                0int
            })
            &&& !agrees ==> (outs[0] matches DrainOutput::Send(LobbyCommand::SetReady { ready })
                && ready == complete)
            &&& resumes ==> outs[n] is Resume
        }),
{
    lemma_has_all(players, roms);
    assert(drain_outputs_view(outs).len() == outs.len());
    if outs.len() > 0 {
        assert(drain_outputs_view(outs)[0] == outs[0]@);
    }
    if outs.len() > 1 {
        assert(drain_outputs_view(outs)[1] == outs[1]@);
    }
}

/// A progress line stays while a merge goes on, and where the machine is held
/// with somebody to merge with; a roster clears it otherwise.
pub proof fn law_rosters_clear_old_lines(
    c: CableView,
    ui: LobbyUiView,
    players: Seq<PlayerInfoView>,
    your_idx: nat,
    m: MachineState,
    roms: Option<Seq<RomInfoView>>,
)
    requires
        c.ui == Some(ui),
    ensures
        ({
            let o = drain_step(
                c,
                DrainInputView::Event(LobbyEventView::Roster { players, your_idx }),
                m,
                roms,
            );
            let held = m.kind is Some && m.paused;
            &&& o.cable.ui matches Some(now)
            &&& ui.starting ==> now.status == ui.status
            &&& !ui.starting && held && players.len() >= 2 ==> now.status == ui.status
            &&& !ui.starting && !(held && players.len() >= 2) ==> now.status is None
        }),
{
}

/// The room's code is shown once it is known, and the line that was there
/// goes.
pub proof fn law_the_code_is_shown(
    c: CableView,
    ui: LobbyUiView,
    code: Seq<char>,
    m: MachineState,
    roms: Option<Seq<RomInfoView>>,
)
    requires
        c.ui == Some(ui),
    ensures
        ({
            let o = drain_step(
                c,
                DrainInputView::Event(LobbyEventView::Joined { code }),
                m,
                roms,
            );
            &&& o.out.len() == 0
            &&& o.cable == (CableView {
                ui: Some(LobbyUiView { code: Some(code), status: None, ..ui }),
                ..c
            })
        }),
{
}

/// A merge begins by capturing the machine, which is unplugged first where it
/// is linked; the capture goes to the room as it is.
pub proof fn law_a_merge_captures_the_machine(
    c: CableView,
    ui: LobbyUiView,
    m: MachineState,
    roms: Option<Seq<RomInfoView>>,
    after: CableView,
    outs: Seq<DrainOutput>,
    blob: Seq<u8>,
    then_after: CableView,
    then_outs: Seq<DrainOutput>,
)
    requires
        c.ui == Some(ui),
        does(c, DrainInputView::Event(LobbyEventView::Starting), m, roms, after, outs),
        does(
            after,
            DrainInputView::Capture(CaptureView::Blob(blob)),
            m,
            roms,
            then_after,
            then_outs,
        ),
    ensures
        after == (CableView {
            ui: Some(
                LobbyUiView { starting: true, status: Some("Linking up…"@), ..ui },
            ),
            ..c
        }),
        m.kind == Some(SessionKind::Netplay) ==> outs.len() == 2 && outs[0] is Unplug
            && outs[1] is Capture,
        m.kind != Some(SessionKind::Netplay) ==> outs.len() == 1 && outs[0] is Capture,
        then_after == after,
        then_outs.len() == 1,
        then_outs[0] matches DrainOutput::Send(LobbyCommand::Boot(b)) && b@ == blob,
{
    assert(drain_outputs_view(outs).len() == outs.len());
    assert(drain_outputs_view(outs)[0] == outs[0]@);
    if outs.len() > 1 {
        assert(drain_outputs_view(outs)[1] == outs[1]@);
    }
    assert(drain_outputs_view(then_outs).len() == then_outs.len());
    assert(drain_outputs_view(then_outs)[0] == then_outs[0]@);
}

/// How a merge goes on and ends. Its progress is shown; a session that is ready
/// is plugged in, and once it is, nothing is said any more; one that fails lets
/// the machine run on, in the same room.
pub proof fn law_how_a_merge_ends(
    c: CableView,
    ui: LobbyUiView,
    m: MachineState,
    roms: Option<Seq<RomInfoView>>,
    t: Seq<char>,
    ready: LobbyEventView,
)
    requires
        c.ui == Some(ui),
        ready is SessionReady,
    ensures
        ({
            let o = drain_step(c, DrainInputView::Event(LobbyEventView::Connecting(t)), m, roms);
            o.out.len() == 0 && o.cable == (CableView {
                ui: Some(LobbyUiView { starting: true, status: Some(t), ..ui }),
                ..c
            })
        }),
        ({
            let o = drain_step(c, DrainInputView::Event(ready), m, roms);
            o.cable == c && o.out == seq![DrainOutputView::PlugIn(ready)]
        }),
        ({
            let o = drain_step(c, DrainInputView::Plugged(None), m, roms);
            o.out.len() == 0 && o.cable == (CableView {
                ui: Some(LobbyUiView { starting: false, status: None, ..ui }),
                notice: None,
                ..c
            })
        }),
        ({
            let o = drain_step(c, DrainInputView::Event(LobbyEventView::MergeFailed(t)), m, roms);
            o.out == seq![DrainOutputView::Resume] && o.cable == (CableView {
                ui: Some(LobbyUiView { starting: false, status: Some(t), ..ui }),
                ..c
            })
        }),
        ({
            let o = drain_step(c, DrainInputView::Event(LobbyEventView::Error(t)), m, roms);
            o.out.len() == 0 && o.cable == (CableView {
                ui: Some(LobbyUiView { status: Some(t), ..ui }),
                ..c
            })
        }),
{
}

/// Whether the panel gave the room up: it says why, lets the machine run on and
/// listens no more.
pub open spec fn gave_up(c: CableView, o: CableStep, why: Seq<char>, first: Seq<DrainOutputView>) -> bool {
    &&& o.cable == (CableView { ui: None, notice: Some(why), live: false, ..c })
    &&& o.out == first + seq![DrainOutputView::Resume, DrainOutputView::Stop]
}

/// What makes the panel give the room up, and what it says: what the room says
/// of itself, being thrown out, which unplugs the machine too, a machine that
/// cannot be captured or is gone, a ROM that is missing, and a link that does
/// not come up.
pub proof fn law_what_gives_a_room_up(
    c: CableView,
    m: MachineState,
    roms: Option<Seq<RomInfoView>>,
    t: Seq<char>,
)
    ensures
        gave_up(
            c,
            drain_step(c, DrainInputView::Event(LobbyEventView::Fatal(t)), m, roms),
            t,
            Seq::empty(),
        ),
        gave_up(
            c,
            drain_step(c, DrainInputView::Event(LobbyEventView::Kicked), m, roms),
            "The room's creator removed you."@,
            if m.kind == Some(SessionKind::Netplay) {
                seq![DrainOutputView::Unplug]
            } else {
                Seq::empty()
            },
        ),
        gave_up(
            c,
            drain_step(c, DrainInputView::Capture(CaptureView::Failed(t)), m, roms),
            "couldn't capture the machine: "@ + t,
            Seq::empty(),
        ),
        gave_up(
            c,
            drain_step(c, DrainInputView::Capture(CaptureView::Gone), m, roms),
            "the game ended before the room linked up"@,
            Seq::empty(),
        ),
        gave_up(c, drain_step(c, DrainInputView::RomsFailed(t), m, roms), t, Seq::empty()),
        gave_up(
            c,
            drain_step(c, DrainInputView::Plugged(Some(t)), m, roms),
            "couldn't link up: "@ + t,
            Seq::empty(),
        ),
{
    let both = seq![DrainOutputView::Resume, DrainOutputView::Stop];
    assert(Seq::<DrainOutputView>::empty() + both =~= both);
}

/// A room that ended by itself leaves nothing to show but what was said
/// before, and the machine runs on.
pub proof fn law_a_room_that_ended(
    c: CableView,
    m: MachineState,
    roms: Option<Seq<RomInfoView>>,
)
    ensures
        ({
            let o = drain_step(c, DrainInputView::Ended, m, roms);
            &&& o.cable == (CableView { ui: None, live: false, ..c })
            &&& o.out == seq![DrainOutputView::Resume, DrainOutputView::Stop]
        }),
{
}

// ---------------------------------------------------------------------
// Entering a room
// ---------------------------------------------------------------------

/// A room is entered with what the arguments say, over the peripheral the
/// machine has.
pub proof fn law_a_room_is_entered_as_asked(
    a: LobbyArgs,
    server_url: Seq<char>,
    nick: Seq<char>,
    rom_crc32: u32,
    rom_title: Seq<char>,
    link: LinkKind,
    mode: LobbyMode,
)
    requires
        opens(a, server_url, nick, rom_crc32, rom_title, link, mode),
    ensures
        a.server_url@ == server_url,
        a.nick@ == nick,
        a.rom_crc32 == rom_crc32,
        a.rom_title@ == rom_title,
        a.wireless <==> link == LinkKind::Wireless,
        a.mode == mode,
{
}

/// What keeps a machine out of rooms: nothing that runs with a known cart, or a
/// cart the library does not have.
pub proof fn law_what_keeps_a_machine_out(
    link: LinkKind,
    crc: u32,
    roms: Seq<RomInfoView>,
    k: int,
)
    requires
        0 <= k < roms.len(),
    ensures
        lobby_obstacle(None, Some(roms)) == Some("this session can't host a link"@),
        lobby_obstacle(Some((link, None)), Some(roms)) == Some("this session can't host a link"@),
        lobby_obstacle(Some((link, Some(roms[k].crc32))), Some(roms)) is None,
        lobby_obstacle(Some((link, Some(crc))), None) == Some(
            "this game's ROM is missing from the library"@,
        ),
        (forall|i: int| 0 <= i < roms.len() ==> (#[trigger] roms[i]).crc32 != crc)
            ==> lobby_obstacle(Some((link, Some(crc))), Some(roms)) == Some(
            "this game's ROM is missing from the library"@,
        ),
{
    assert(holds(roms, roms[k].crc32));
}

/// A room that is being entered shows nothing yet.
pub proof fn law_a_fresh_room_is_empty(created: bool)
    ensures
        fresh_ui(created).code is None,
        fresh_ui(created).players.len() == 0,
        fresh_ui(created).status is None,
        !fresh_ui(created).starting,
        fresh_ui(created).created == created,
        fresh_ui(created).my_idx == 0,
{
}

proof fn lemma_uppered(s: Seq<char>)
    requires
        forall|i: int| 0 <= i < s.len() ==> (#[trigger] s[i]) as u32 <= 127,
    ensures
        uppered(s) == s.map_values(|c: char| crate::text::ascii_upper(c)),
    decreases s.len(),
{
    let up = |c: char| crate::text::ascii_upper(c);
    if s.len() > 0 {
        let d = s.drop_last();
        assert forall|i: int| 0 <= i < d.len() implies (#[trigger] d[i]) as u32 <= 127 by {
            assert(s[i] as u32 <= 127);
        }
        lemma_uppered(d);
        assert(s[s.len() - 1] as u32 <= 127);
        assert(uppered(s) =~= s.map_values(up));
    } else {
        assert(uppered(s) =~= s.map_values(up));
    }
}

/// A code is typed as it is, in either case: all of it is kept, and nothing is
/// taken behind it.
pub proof fn law_a_typed_code_is_that_code(code: Seq<char>, more: Seq<char>)
    requires
        is_room_code(code),
    ensures
        code_chars(code) == code,
        code_chars(uppered(lowered(code))) == code,
        code_chars(code + more) == code,
{
    let low = lowered(code);
    assert forall|i: int| 0 <= i < low.len() implies (#[trigger] low[i]) as u32 <= 127
        && crate::text::ascii_upper(low[i]) == code[i] by {
        crate::signaling::laws::law_codes_are_not_misread(code, i);
    }
    lemma_uppered(low);
    assert(uppered(low) =~= code);
    lemma_all_kept(code);
    lemma_kept_in_front(code, more);
    let kept = (code + more).filter(is_code_char());
    if kept.len() > 6 {
        assert(kept.take(6) =~= code);
    } else {
        assert(kept =~= code);
    }
}

proof fn lemma_all_kept(s: Seq<char>)
    requires
        forall|i: int|
            0 <= i < s.len() ==> crate::signaling::ROOM_CODE_ALPHABET@.contains(#[trigger] s[i]),
    ensures
        s.filter(is_code_char()) == s,
    decreases s.len(),
{
    reveal(Seq::filter);
    if s.len() > 0 {
        let d = s.drop_last();
        assert forall|i: int|
            0 <= i < d.len() implies crate::signaling::ROOM_CODE_ALPHABET@.contains(
            #[trigger] d[i],
        ) by {
            assert(crate::signaling::ROOM_CODE_ALPHABET@.contains(s[i]));
        }
        lemma_all_kept(d);
        assert(crate::signaling::ROOM_CODE_ALPHABET@.contains(s[s.len() - 1]));
        assert(s.filter(is_code_char()) =~= s);
    } else {
        assert(s.filter(is_code_char()) =~= s);
    }
}

proof fn lemma_kept_in_front(s: Seq<char>, more: Seq<char>)
    ensures
        ({
            let all = (s + more).filter(is_code_char());
            let front = s.filter(is_code_char());
            &&& all.len() >= front.len()
            &&& all.take(front.len() as int) == front
        }),
    decreases more.len(),
{
    reveal(Seq::filter);
    let front = s.filter(is_code_char());
    if more.len() > 0 {
        let d = more.drop_last();
        lemma_kept_in_front(s, d);
        let rest = (s + d).filter(is_code_char());
        assert((s + more).drop_last() =~= s + d);
        let all = (s + more).filter(is_code_char());
        assert(all.take(front.len() as int) =~= rest.take(front.len() as int));
    } else {
        assert(s + more =~= s);
        assert(front.take(front.len() as int) =~= front);
    }
}

/// What is said beside the button that creates a room.
pub proof fn law_what_creating_a_room_promises(link: LinkKind)
    ensures
        link == LinkKind::Wireless ==> create_text(link)
            == "You'll get a code to share with the other players. They merge in as they arrive, over your wireless adapter."@,
        link == LinkKind::Cable ==> create_text(link)
            == "You'll get a code to share with the other players. Once everyone's in, link the cable up."@,
{
}

// ---------------------------------------------------------------------
// ROMs
// ---------------------------------------------------------------------

/// What is wrong with the ROMs of a session is what is wrong with the first
/// player's whose is missing or cannot be read; nothing is where every player's
/// is there. A missing one is named by its player and checksum.
pub proof fn law_the_first_missing_rom_is_named(
    players: Seq<StartPlayerView>,
    roms: Seq<RomInfoView>,
    reads: Seq<Result<Vec<u8>, String>>,
    from: int,
    i: int,
)
    requires
        0 <= from <= i < players.len(),
        forall|k: int|
            from <= k < i ==> holds(roms, (#[trigger] players[k]).rom_crc32) && reads[k] is Ok,
    ensures
        !holds(roms, players[i].rom_crc32) ==> first_fault(players, roms, reads, from) == Some(
            "missing a copy of "@ + players[i].nick + "'s ROM (crc32 "@ + hex_digits(
                players[i].rom_crc32 as nat,
                8,
            ) + ")"@,
        ),
        holds(roms, players[i].rom_crc32) ==> (reads[i] matches Err(t) ==> first_fault(
            players,
            roms,
            reads,
            from,
        ) == Some(t@)),
        i == players.len() - 1 && holds(roms, players[i].rom_crc32) && reads[i] is Ok
            ==> first_fault(players, roms, reads, from) is None,
        roms_fault(players, roms, None) == Some("storage unavailable"@),
    decreases i - from,
{
    if from < i {
        assert(holds(roms, players[from].rom_crc32) && reads[from] is Ok);
        law_the_first_missing_rom_is_named(players, roms, reads, from + 1, i);
    } else {
        assert(missing_text(players[i]) == "missing a copy of "@ + players[i].nick
            + "'s ROM (crc32 "@ + hex_digits(players[i].rom_crc32 as nat, 8) + ")"@);
        if i == players.len() - 1 {
            assert(first_fault(players, roms, reads, i + 1) is None);
        }
    }
}

// ---------------------------------------------------------------------
// What the panel shows
// ---------------------------------------------------------------------

/// A room has as many seats as its peripheral links. A seat that is taken shows
/// its player by nick, or by number where they have none, and what is to be
/// said of their ROM; only the creator may throw others out, and not while the
/// room links up.
pub proof fn law_what_a_seat_shows(
    ui: LobbyUiView,
    i: int,
    roms: Seq<RomInfoView>,
    dat: Map<u32, Seq<char>>,
)
    requires
        0 <= i,
    ensures
        seats(false) == 4,
        seats(true) == 5,
        i >= ui.players.len() ==> room_row(ui, i, roms, dat) is Open,
        i < ui.players.len() ==> (room_row(ui, i, roms, dat) matches RoomRowView::Seat {
            name,
            game,
            note,
            kick,
        } && {
            let p = ui.players[i];
            &&& p.nick.len() > 0 ==> name == p.nick
            &&& p.nick.len() == 0 ==> name == "Player "@ + decimal((i + 1) as nat)
            &&& !holds(roms, p.rom_crc32) && !dat.contains_key(p.rom_crc32) ==> game == p.rom_title
            &&& !holds(roms, p.rom_crc32) && dat.contains_key(p.rom_crc32) ==> game
                == dat[p.rom_crc32]
            &&& note == SeatNote::You <==> i == ui.my_idx
            &&& i != ui.my_idx && !holds(roms, p.rom_crc32) ==> note == SeatNote::MissingThisRom
            &&& i != ui.my_idx && holds(roms, p.rom_crc32) ==> note == (if p.ready {
                SeatNote::Nothing
            } else {
                SeatNote::MissingARom
            })
            &&& kick is Some <==> ui.my_idx == 0 && i != 0 && !ui.starting
            &&& kick matches Some(seat) ==> seat == p.seat
        }),
{
}

/// Who can link a room up: its creator, over the cable, once it has a code, is
/// not linking up already, somebody else is in it, everyone is ready and every
/// ROM is here.
pub proof fn law_who_can_link_up(ui: LobbyUiView, cable: bool, roms: Seq<RomInfoView>, i: int)
    requires
        0 <= i < ui.players.len(),
    ensures
        link_up_of(None, cable, roms) == LinkUp::Hidden,
        !cable || ui.my_idx != 0 ==> link_up_of(Some(ui), cable, roms) == LinkUp::Hidden,
        cable && ui.my_idx == 0 ==> link_up_of(Some(ui), cable, roms) != LinkUp::Hidden,
        link_up_of(Some(ui), cable, roms) == LinkUp::Ready ==> {
            &&& ui.code is Some && !ui.starting && ui.players.len() >= 2
            &&& ui.players[i].ready
            &&& holds(roms, ui.players[i].rom_crc32)
        },
        cable && ui.my_idx == 0 && ui.code is Some && !ui.starting && ui.players.len() >= 2 && (
        forall|k: int|
            0 <= k < ui.players.len() ==> (#[trigger] ui.players[k]).ready && holds(
                roms,
                ui.players[k].rom_crc32,
            )) ==> link_up_of(Some(ui), cable, roms) == LinkUp::Ready,
{
}

/// The line under the roster: what was said last, or what is to be done next.
pub proof fn law_what_the_line_says(ui: LobbyUiView, cable: bool, roms: Seq<RomInfoView>)
    ensures
        ui.status matches Some(s) ==> status_line(ui, cable, roms) == s,
        ui.status is None && (ui.code is None || ui.starting) ==> status_line(ui, cable, roms)
            == ""@,
        ui.status is None && ui.code is Some && !ui.starting ==> {
            let line = status_line(ui, cable, roms);
            &&& cable && ui.my_idx != 0 ==> line == "Waiting for the room's creator to link up."@
            &&& cable && ui.my_idx == 0 && ui.players.len() < 2 ==> line
                == "Share the code — link up when everyone's in."@
            &&& !cable && ui.players.len() < 2 ==> line
                == "Share the code — players merge in as they arrive."@
        },
{
}

} // verus!
