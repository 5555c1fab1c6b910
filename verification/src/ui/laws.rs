//! What holds of the screens, said of what they are given and what they show.
use vstd::prelude::*;
use crate::input::MappedKey;
use crate::library::{crc32_of, holds, shown_name, RomInfoView};
use crate::replay::PlayerMetaView;
use crate::session::{PeerStatView, SessionEnd};
use crate::signaling::PlayerInfoView;
use crate::text::{decimal, hex_digits, lowered, occurs, text_le, trimmed};
use crate::ui::lobby::{
    badge, content_of, controls_of, have_all, host_hint, roster_rows, title_of, waiting_from, ContentView, ControlsView,
    SeatStatus, SlotRowView, State,
};
use crate::ui::play::screen::{
    bumped, launched, rename_done, rom_delete_done, save_delete_done, LaunchView, ScreenView,
};
use crate::ui::play::{
    empty_library, failed, finds, fresh_picked, game_deleted, game_picked, import_picked,
    import_report, imported, launch_save, new_save_name, pruned, remembered, rom_found,
    rom_meta_text, save_deleted, save_found, save_picked, save_renamed, FlashedView, ImportCounts,
    PicksView, Slot,
};
use crate::ui::replays::{
    began_after, deduped, entry_of, is_recording, joined, newer, rom_name, row_of, EntryView,
};
use crate::ui::scrubber::{scrubbed, Pointer, Scrub};
use crate::ui::session_view::{end_text, title};
use crate::ui::settings::{clicked, key_name, update_report, BindEditorView};
use crate::ui::telemetry::{
    always_signed, depth_reading_of, lead_reading_of, signal_of, signed, skew_reading_of,
    tone_by_distance, tone_color, worst_ping_of, Signal, Tone,
};

verus! {

// ---------------------------------------------------------------------
// Picking games and saves
// ---------------------------------------------------------------------

/// A game that is picked is picked with the save it was last played with, and
/// is the one to come back to.
pub proof fn law_picking_a_game(p: PicksView, crc32: u32)
    ensures
        ({
            let q = game_picked(p, crc32);
            &&& q.selected_game == Some(crc32)
            &&& q.last_game == Some(crc32)
            &&& p.last_saves.contains_key(crc32) ==> q.selected_save == Some(p.last_saves[crc32])
            &&& !p.last_saves.contains_key(crc32) ==> q.selected_save is None
            &&& q.last_saves == p.last_saves
        }),
{
}

/// A save that is picked is remembered for the game it is picked for, and
/// starting afresh forgets it. Neither touches another game's.
pub proof fn law_picking_a_save(p: PicksView, crc32: u32, name: Seq<char>, other: u32)
    requires
        p.selected_game == Some(crc32),
        other != crc32,
    ensures
        save_picked(p, name).selected_save == Some(name),
        remembered(save_picked(p, name), crc32) == Some(name),
        remembered(save_picked(p, name), other) == remembered(p, other),
        fresh_picked(p).selected_save is None,
        remembered(fresh_picked(p), crc32) is None,
        remembered(fresh_picked(p), other) == remembered(p, other),
        save_picked(p, name).selected_game == p.selected_game,
        fresh_picked(p).selected_game == p.selected_game,
        save_picked(p, name).last_game == p.last_game,
{
}

/// A save that is renamed is picked and remembered under its new name, where it
/// was under the old one; a save that is deleted no longer is. Other saves are
/// not touched.
pub proof fn law_renamed_and_deleted_saves(
    p: PicksView,
    crc32: u32,
    from: Seq<char>,
    to: Seq<char>,
    other: u32,
)
    requires
        other != crc32,
    ensures
        p.selected_save == Some(from) ==> save_renamed(p, crc32, from, to).selected_save == Some(
            to,
        ),
        p.selected_save != Some(from) ==> save_renamed(p, crc32, from, to).selected_save
            == p.selected_save,
        remembered(p, crc32) == Some(from) ==> remembered(save_renamed(p, crc32, from, to), crc32)
            == Some(to),
        remembered(p, crc32) != Some(from) ==> remembered(save_renamed(p, crc32, from, to), crc32)
            == remembered(p, crc32),
        remembered(save_renamed(p, crc32, from, to), other) == remembered(p, other),
        p.selected_save == Some(from) ==> save_deleted(p, crc32, from).selected_save is None,
        p.selected_save != Some(from) ==> save_deleted(p, crc32, from).selected_save
            == p.selected_save,
        remembered(p, crc32) == Some(from) ==> remembered(save_deleted(p, crc32, from), crc32)
            is None,
        remembered(save_deleted(p, crc32, from), other) == remembered(p, other),
        save_renamed(p, crc32, from, to).selected_game == p.selected_game,
        save_deleted(p, crc32, from).selected_game == p.selected_game,
{
}

/// A game that is deleted is neither picked nor come back to, and its save is
/// forgotten; other games' are not.
pub proof fn law_deleted_games(p: PicksView, crc32: u32, other: u32)
    requires
        other != crc32,
    ensures
        game_deleted(p, crc32).selected_game != Some(crc32),
        game_deleted(p, crc32).last_game != Some(crc32),
        remembered(game_deleted(p, crc32), crc32) is None,
        remembered(game_deleted(p, crc32), other) == remembered(p, other),
        p.selected_game == Some(other) ==> game_deleted(p, crc32).selected_game == Some(other)
            && game_deleted(p, crc32).selected_save == p.selected_save,
        p.last_game == Some(other) ==> game_deleted(p, crc32).last_game == Some(other),
        p.selected_game == Some(crc32) ==> game_deleted(p, crc32).selected_save is None,
{
}

/// An import of one game picks it, and an import of one save picks that, where
/// no single game came with it; any other picks nothing.
pub proof fn law_what_an_import_picks(p: PicksView, c: ImportCounts)
    ensures
        c.roms == 1 ==> (c.rom_crc32 matches Some(crc) ==> import_picked(p, c).selected_game
            == Some(crc)),
        c.roms != 1 && c.saves == 1 ==> (c.save_name matches Some(n) ==> import_picked(
            p,
            c,
        ).selected_save == Some(n@)),
        c.roms != 1 && c.saves != 1 ==> import_picked(p, c) == p,
{
}

/// A picked save that a listing of its game no longer has is not picked any
/// more; one that it has stays.
pub proof fn law_missing_saves_are_dropped(
    p: PicksView,
    authoritative: bool,
    saves: Seq<Seq<char>>,
    name: Seq<char>,
)
    requires
        p.selected_save == Some(name),
    ensures
        saves.contains(name) ==> pruned(p, p.selected_game, authoritative, saves) == p,
        authoritative && !saves.contains(name) ==> pruned(
            p,
            p.selected_game,
            authoritative,
            saves,
        ).selected_save is None,
        !authoritative ==> pruned(p, p.selected_game, authoritative, saves) == p,
{
}

/// What is searched for is found in any case: in a game's shown name, its title
/// and its code, and in a save's name.
pub proof fn law_searches_ignore_case(needle: Seq<char>, r: RomInfoView, save: Seq<char>)
    requires
        needle.len() > 0,
    ensures
        rom_found(needle)(r) <==> occurs(lowered(needle), lowered(shown_name(r))) || occurs(
            lowered(needle),
            lowered(r.title),
        ) || occurs(lowered(needle), lowered(r.code)),
        save_found(needle)(save) <==> occurs(lowered(needle), lowered(save)),
        finds(lowered(needle), save) == finds(needle, save),
{
    assert(lowered(lowered(needle)) =~= lowered(needle));
}

/// What is said of an empty list.
pub proof fn law_what_an_empty_library_says()
    ensures
        empty_library(true).0 == "No games match your search"@,
        empty_library(true).1 == "Try a title or game code."@,
        empty_library(false).0 == "No games yet"@,
        empty_library(false).1 == "Import .gba files to get started."@,
{
}

/// What is said of a game: its code, its checksum and its size in KiB, rounded
/// down.
pub proof fn law_what_is_said_of_a_game(r: RomInfoView, kib: nat)
    requires
        kib * 1024 <= r.size < (kib + 1) * 1024,
    ensures
        rom_meta_text(r) == r.code + " · "@ + hex_digits(r.crc32 as nat, 8) + " · "@ + decimal(kib)
            + " KiB"@,
{
    assert(r.size as nat / 1024 == kib);
}

/// A save that is renamed keeps its extension behind what was typed, without
/// the white space around it; nothing typed is no name.
pub proof fn law_renaming_keeps_the_extension(typed: Seq<char>, base: Seq<char>, e: Seq<char>)
    requires
        !e.contains('.'),
    ensures
        trimmed(typed).len() == 0 ==> new_save_name(typed, base + seq!['.'] + e) is None,
        trimmed(typed).len() > 0 ==> new_save_name(typed, base + seq!['.'] + e) == Some(
            trimmed(typed) + "."@ + e,
        ),
{
    crate::library::laws::law_names_have_stems_and_extensions(base, e);
}

/// A game is launched from what was scanned, with the save that was picked, and
/// saves into that; with none picked it starts afresh, and saves under its own
/// name.
pub proof fn law_how_a_game_is_launched(
    info: RomInfoView,
    pick: Seq<char>,
    rom: Seq<u8>,
    save: Option<Seq<u8>>,
)
    requires
        crc32_of(rom) == info.crc32,
    ensures
        launched(info, Some(pick), Ok(Some(rom)), save) == Ok::<LaunchView, FlashedView>(
            LaunchView { rom, save, save_file: pick },
        ),
        launched(info, None, Ok(Some(rom)), save) == Ok::<LaunchView, FlashedView>(
            LaunchView { rom, save: None, save_file: shown_name(info) + ".sav"@ },
        ),
        launch_save(Some(pick), info) == pick,
{
}

/// A game whose file is gone or changed is not launched, and it is said beside
/// the button.
pub proof fn law_what_keeps_a_game_from_launching(
    info: RomInfoView,
    pick: Option<Seq<char>>,
    rom: Seq<u8>,
    save: Option<Seq<u8>>,
    error: Seq<char>,
)
    ensures
        launched(info, pick, Ok(None), save) matches Err(f) && f.slot == Slot::Launch && !f.ok
            && f.text == info.file_name + " disappeared from the library"@,
        crc32_of(rom) != info.crc32 ==> (launched(info, pick, Ok(Some(rom)), save) matches Err(f)
            && f.slot == Slot::Launch && !f.ok && f.text == info.file_name
            + " changed since it was scanned"@),
        launched(info, pick, Err(error), save) matches Err(f) && f.slot == Slot::Launch && !f.ok
            && f.text == error,
{
}

/// What an import says: how many games and how many saves came in, each in its
/// own pane, and how many files were skipped, once.
pub proof fn law_what_an_import_says(c: ImportCounts)
    requires
        c.saves_without_game == 0,
    ensures
        c.roms > 0 && c.saves == 0 ==> import_report(c) == seq![
            imported(Slot::Roms, c.roms, c.skipped),
        ],
        c.roms == 0 && c.saves > 0 ==> import_report(c) == seq![
            imported(Slot::Saves, c.saves, c.skipped),
        ],
        c.roms > 0 && c.saves > 0 ==> import_report(c) == seq![
            imported(Slot::Roms, c.roms, c.skipped),
            imported(Slot::Saves, c.saves, 0),
        ],
        c.roms == 0 && c.saves == 0 && c.skipped == 0 ==> import_report(c) == seq![
            failed(Slot::Fail, "Import failed: no files received"@),
        ],
        c.roms == 0 && c.saves == 0 && c.skipped > 0 ==> import_report(c) == seq![
            failed(Slot::Fail, "Import failed, skipped "@ + decimal(c.skipped as nat)),
        ],
{
    let none = Seq::<FlashedView>::empty();
    if c.roms > 0 && c.saves == 0 {
        assert(import_report(c) =~= seq![imported(Slot::Roms, c.roms, c.skipped)]);
    } else if c.roms == 0 && c.saves > 0 {
        assert(import_report(c) =~= seq![imported(Slot::Saves, c.saves, c.skipped)]);
    } else if c.roms > 0 {
        assert(import_report(c) =~= seq![
            imported(Slot::Roms, c.roms, c.skipped),
            imported(Slot::Saves, c.saves, 0),
        ]);
    } else if c.skipped == 0 {
        assert(import_report(c) =~= seq![
            failed(Slot::Fail, "Import failed: no files received"@),
        ]);
    } else {
        assert(import_report(c) =~= seq![
            failed(Slot::Fail, "Import failed, skipped "@ + decimal(c.skipped as nat)),
        ]);
    }
}

/// Saves with no game to belong to are said first, whatever else came in.
pub proof fn law_homeless_saves_are_said_first(c: ImportCounts)
    requires
        c.saves_without_game > 0,
    ensures
        import_report(c).len() > 0,
        import_report(c)[0] == failed(Slot::Saves, "Pick a game first, then import its saves"@),
        c.roms == 0 && c.saves == 0 && c.skipped == 0 ==> import_report(c).len() == 1,
{
}

/// A note of what came in counts it, and is good news where nothing was
/// skipped; a failure is none. Either is shown for some seconds.
pub proof fn law_what_notes_say(slot: Slot, n: u32, skipped: u32, text: Seq<char>)
    ensures
        imported(slot, n, 0) == (FlashedView {
            slot,
            text: "Imported "@ + decimal(n as nat) + "!"@,
            ok: true,
            ms: 3000,
        }),
        skipped > 0 ==> imported(slot, n, skipped) == (FlashedView {
            slot,
            text: "Imported "@ + decimal(n as nat) + ", skipped "@ + decimal(skipped as nat),
            ok: false,
            ms: 3000,
        }),
        failed(slot, text) == (FlashedView { slot, text, ok: false, ms: 5000 }),
{
}

/// What is done on the play screen is done to the picks where it worked, and is
/// said where it did not; the lists are read again either way, and what was
/// asked about is asked no longer.
pub proof fn law_what_the_screen_does(
    s: ScreenView,
    crc32: u32,
    save: Seq<char>,
    to: Seq<char>,
    file: Seq<char>,
    e: Seq<char>,
)
    ensures
        rename_done(s, crc32, save, to, None).0.picks == save_renamed(s.picks, crc32, save, to),
        rename_done(s, crc32, save, to, None).1 is None,
        rename_done(s, crc32, save, to, Some(e)).0.picks == s.picks,
        rename_done(s, crc32, save, to, Some(e)).1 == Some(
            failed(Slot::SaveList, "couldn't rename "@ + save + ": "@ + e),
        ),
        rename_done(s, crc32, save, to, None).0.rename_target is None,
        rename_done(s, crc32, save, to, None).0.saves_rev == bumped(s.saves_rev),
        save_delete_done(s, crc32, save, None).0.picks == save_deleted(s.picks, crc32, save),
        save_delete_done(s, crc32, save, None).1 is None,
        save_delete_done(s, crc32, save, Some(e)).0.picks == s.picks,
        save_delete_done(s, crc32, save, Some(e)).1 == Some(
            failed(Slot::SaveList, "couldn't delete "@ + save + ": "@ + e),
        ),
        save_delete_done(s, crc32, save, None).0.pending_save_delete is None,
        save_delete_done(s, crc32, save, None).0.saves_rev == bumped(s.saves_rev),
        rom_delete_done(s, crc32, file, None, None).0.picks == game_deleted(s.picks, crc32),
        rom_delete_done(s, crc32, file, None, None).1 is None,
        rom_delete_done(s, crc32, file, Some(e), None).0.picks == s.picks,
        rom_delete_done(s, crc32, file, Some(e), None).1 == Some(
            failed(Slot::Library, "couldn't delete "@ + file + ": "@ + e),
        ),
        rom_delete_done(s, crc32, file, None, Some(e)).0.picks == game_deleted(s.picks, crc32),
        rom_delete_done(s, crc32, file, None, Some(e)).1 == Some(
            failed(Slot::Library, "deleted "@ + file + ", but not its saves: "@ + e),
        ),
        rom_delete_done(s, crc32, file, None, None).0.pending_delete is None,
        rom_delete_done(s, crc32, file, None, None).0.library_rev == bumped(s.library_rev),
        s.saves_rev < u64::MAX ==> bumped(s.saves_rev) == s.saves_rev + 1,
{
}

// ---------------------------------------------------------------------
// The lobby
// ---------------------------------------------------------------------

/// The roster shows four seats, or one for every player where there are more:
/// who sits there, whether it is you, how ready they are, and whether their ROM
/// is missing. The first seat is the host's.
pub proof fn law_what_the_roster_shows(
    players: Seq<PlayerInfoView>,
    my_idx: nat,
    roms: Seq<RomInfoView>,
    i: int,
)
    requires
        0 <= i < roster_rows(players, my_idx, roms).len(),
    ensures
        roster_rows(players, my_idx, roms).len() >= 4,
        roster_rows(players, my_idx, roms).len() >= players.len(),
        players.len() <= 4 ==> roster_rows(players, my_idx, roms).len() == 4,
        i >= players.len() ==> roster_rows(players, my_idx, roms)[i] == (SlotRowView::Open {
            label: "P"@ + decimal((i + 1) as nat),
        }),
        i < players.len() ==> (roster_rows(players, my_idx, roms)[i] matches SlotRowView::Taken {
            line,
            status,
            rom_title,
            missing_rom,
        } && {
            &&& i == my_idx ==> line == "P"@ + decimal((i + 1) as nat) + " · "@ + players[i].nick
                + " · You"@
            &&& i != my_idx ==> line == "P"@ + decimal((i + 1) as nat) + " · "@ + players[i].nick
            &&& i == 0 <==> status == SeatStatus::Host
            &&& i > 0 && players[i].ready ==> status == SeatStatus::Ready
            &&& i > 0 && !players[i].ready ==> status == SeatStatus::Waiting
            &&& missing_rom <==> !holds(roms, players[i].rom_crc32)
            &&& rom_title == title_of(players[i], roms)
            &&& missing_rom ==> rom_title == players[i].rom_title
        }),
{
    if i < players.len() && i != my_idx {
        let front = "P"@ + decimal((i + 1) as nat) + " · "@ + players[i].nick;
        assert(front + Seq::<char>::empty() =~= front);
    }
}

/// How a seat's readiness is called.
pub proof fn law_how_readiness_is_called()
    ensures
        badge(SeatStatus::Host) == "Host"@,
        badge(SeatStatus::Ready) == "Ready"@,
        badge(SeatStatus::Waiting) == "Waiting"@,
{
}

/// The players waited for are the guests who are not ready: none where all of
/// them are, and one more for each who is not.
pub proof fn law_who_is_waited_for(players: Seq<PlayerInfoView>, from: int)
    requires
        0 <= from <= players.len(),
    ensures
        waiting_from(players, from) <= players.len() - from,
        waiting_from(players, from) == 0 <==> forall|i: int|
            from <= i < players.len() ==> (#[trigger] players[i]).ready,
        from < players.len() ==> waiting_from(players, from) == waiting_from(players, from + 1) + (
        if players[from].ready {
            0int
        } else {
            1int
        }),
    decreases players.len() - from,
{
    if from < players.len() {
        law_who_is_waited_for(players, from + 1);
    }
}

/// What the host is told: to wait for someone, to add what is missing, whom the
/// room waits for, or to go ahead.
pub proof fn law_what_the_host_is_told(players: Seq<PlayerInfoView>, have: bool)
    ensures
        ({
            let n = waiting_from(players, 1);
            &&& players.len() < 2 ==> host_hint(players, have) == "Waiting for someone to join."@
            &&& players.len() >= 2 && !have ==> host_hint(players, have)
                == "Add the missing ROM before starting."@
            &&& players.len() >= 2 && have && n == 1 ==> host_hint(players, have)
                == "Waiting for "@ + decimal(1) + " player"@ + " to get ready."@
            &&& players.len() >= 2 && have && n > 1 ==> host_hint(players, have) == "Waiting for "@
                + decimal(n) + " players"@ + " to get ready."@
            &&& players.len() >= 2 && have && n == 0 ==> host_hint(players, have)
                == "Everyone is ready. This will plug in the virtual cable."@
        }),
{
}

/// What can be done in a room: nothing while it starts; the host can start it
/// where two or more are in it, every guest is ready and every ROM is here; a
/// guest can say they are ready where every ROM is here, and take it back at any
/// time.
pub proof fn law_what_can_be_done_in_a_room(s: State, have: bool, i: int)
    ensures
        s.starting ==> controls_of(s, have) is Starting,
        !s.starting && s.my_idx == 0 ==> (controls_of(s, have) matches ControlsView::Host {
            can_start,
            ..
        } && {
            &&& can_start ==> s.players@.len() >= 2 && have && (0 < i < s.players@.len()
                ==> s.players@[i].ready)
            &&& s.players@.len() >= 2 && have && (forall|k: int|
                0 < k < s.players@.len() ==> (#[trigger] s.players@[k]).ready) ==> can_start
        }),
        !s.starting && s.my_idx != 0 ==> (controls_of(s, have) matches ControlsView::Guest {
            ready,
            can_toggle,
            ..
        } && ready == s.my_ready && (can_toggle <==> have || s.my_ready)),
{
    let pv = crate::signaling::messages::player_infos_view(s.players@);
    assert(pv.len() == s.players@.len());
    if pv.len() >= 1 {
        law_who_is_waited_for(pv, 1);
    }
    if waiting_from(pv, 1) == 0 && pv.len() >= 2 && 0 < i < pv.len() {
        assert(pv[i].ready);
        assert(pv[i] == s.players@[i]@);
    }
    if forall|k: int| 0 < k < s.players@.len() ==> (#[trigger] s.players@[k]).ready {
        assert forall|k: int| 1 <= k < pv.len() implies (#[trigger] pv[k]).ready by {
            assert(pv[k] == s.players@[k]@);
            assert(s.players@[k].ready);
        }
    }
}

/// What the lobby shows: that it connects until there is a code; then the room,
/// what can be done in it, whether a ROM is missing, and what was said last,
/// unless the room starts.
pub proof fn law_what_the_lobby_shows(s: State, roms: Seq<RomInfoView>)
    ensures
        s.code is None ==> (content_of(s, roms) matches ContentView::Connecting { status } && {
            &&& s.status matches Some(t) ==> status == t@
            &&& s.status is None ==> status == "Connecting to the lobby…"@
        }),
        s.code is Some ==> (content_of(s, roms) matches ContentView::Room {
            slots,
            missing_rom,
            controls,
            status,
        } && {
            let players = crate::signaling::messages::player_infos_view(s.players@);
            &&& slots == roster_rows(players, s.my_idx as nat, roms)
            &&& missing_rom == !have_all(players, roms)
            &&& controls == controls_of(s, have_all(players, roms))
            &&& s.starting ==> status is None
            &&& !s.starting ==> (s.status matches Some(t) ==> status == Some(t@))
            &&& s.status is None ==> status is None
        }),
        s.starting ==> (controls_of(s, true) matches ControlsView::Starting { status } && {
            &&& s.status matches Some(t) ==> status == t@
            &&& s.status is None ==> status == "Connecting players…"@
        }),
        !s.starting && s.my_idx != 0 ==> {
            &&& controls_of(s, true) matches ControlsView::Guest { hint, .. } && hint
                == "The host can start once every player is ready."@
            &&& controls_of(s, false) matches ControlsView::Guest { hint, .. } && hint
                == "Add the missing ROM before marking yourself ready."@
        },
{
}

/// Every ROM is here exactly where every player's is.
pub proof fn law_every_rom_is_here(players: Seq<PlayerInfoView>, roms: Seq<RomInfoView>, i: int)
    requires
        0 <= i < players.len(),
    ensures
        have_all(players, roms) ==> holds(roms, players[i].rom_crc32),
        (forall|k: int| 0 <= k < players.len() ==> holds(roms, (#[trigger] players[k]).rom_crc32))
            ==> have_all(players, roms),
{
}

// ---------------------------------------------------------------------
// Recordings
// ---------------------------------------------------------------------

/// A recording is told by its extension, in any case, with something in front
/// of it.
pub proof fn law_recordings_are_told_by_extension(base: Seq<char>, e: Seq<char>)
    requires
        !e.contains('.'),
    ensures
        is_recording(base + seq!['.'] + e) <==> base.len() > 0 && lowered(e) == "gbrr"@,
        !is_recording(e),
{
    crate::library::laws::law_names_have_stems_and_extensions(base, e);
    reveal_strlit("gbrr");
    assert(lowered("gbrr"@) =~= "gbrr"@);
}

/// A recording is listed with what its header says, how many ticks it has and
/// whether it is whole; what does not read is not listed.
pub proof fn law_what_is_listed_of_a_recording(name: Seq<char>, d: Seq<u8>)
    ensures
        !is_recording(name) ==> entry_of(name, d) is None,
        crate::replay::read_header(d) is Err ==> entry_of(name, d) is None,
        is_recording(name) ==> (crate::replay::read_header(d) matches Ok((m, end)) ==> (entry_of(
            name,
            d,
        ) matches Some(e) && {
            &&& e.path == name
            &&& e.metadata == m
            &&& e.ticks == crate::replay::rows_at(d, end, m.players.len()).0.len() as u32
            &&& e.complete == crate::replay::rows_at(d, end, m.players.len()).1
        })),
{
}

/// Newer recordings come first, those without a date last; of two that began
/// together the one with the later name.
pub proof fn law_which_recording_is_newer(a: EntryView, b: EntryView)
    ensures
        ({
            let x = a.metadata.started_at_unix_micros;
            let y = b.metadata.started_at_unix_micros;
            &&& x matches Some(s) ==> (y matches Some(t) ==> s > t ==> newer(a, b) && !newer(b, a))
            &&& x is Some && y is None ==> newer(a, b) && !newer(b, a)
            &&& x == y ==> newer(a, b) == text_le(b.path, a.path)
        }),
        began_after(a.metadata.started_at_unix_micros, None),
{
}

/// A list of texts is put together in order, with something between any two.
pub proof fn law_texts_are_joined_in_order(a: Seq<Seq<char>>, t: Seq<char>, sep: Seq<char>)
    requires
        a.len() > 0,
    ensures
        joined(Seq::empty(), sep) == Seq::<char>::empty(),
        joined(seq![t], sep) == t,
        joined(a.push(t), sep) == joined(a, sep) + sep + t,
{
    assert(a.push(t).drop_last() =~= a);
}

/// Of texts that repeat one behind the other the first is kept.
pub proof fn law_repeats_are_dropped(a: Seq<Seq<char>>, t: Seq<char>)
    requires
        a.len() > 0,
    ensures
        t == a.last() ==> deduped(a.push(t)) == deduped(a),
        t != a.last() ==> deduped(a.push(t)) == deduped(a).push(t),
        deduped(seq![t]) == seq![t],
{
    assert(a.push(t).drop_last() =~= a);
    assert(a.push(t)[a.push(t).len() - 2] == a.last());
}

/// A recording can be watched where every player's ROM is here, and is shown by
/// who played and what.
pub proof fn law_which_recordings_can_be_watched(e: EntryView, roms: Seq<RomInfoView>, i: int)
    requires
        0 <= i < e.metadata.players.len(),
    ensures
        row_of(e, roms).watchable ==> holds(roms, e.metadata.players[i].rom_crc32),
        (forall|k: int|
            0 <= k < e.metadata.players.len() ==> holds(
                roms,
                (#[trigger] e.metadata.players[k]).rom_crc32,
            )) ==> row_of(e, roms).watchable,
        row_of(e, roms).complete == e.complete,
        row_of(e, roms).players == joined(
            e.metadata.players.map_values(|p: PlayerMetaView| p.nick),
            " vs "@,
        ),
        !holds(roms, e.metadata.players[i].rom_crc32) ==> rom_name(e.metadata.players[i], roms)
            == e.metadata.players[i].rom_title,
{
}

// ---------------------------------------------------------------------
// The scrubber
// ---------------------------------------------------------------------

/// Nothing past what is prefetched is sought. A press begins a drag and seeks
/// at once; a move seeks where it reaches another tick; letting go settles on
/// what was sought last, and ends the drag. Without a drag moves and releases
/// are not the bar's.
pub proof fn law_how_the_bar_is_scrubbed(
    s: crate::ui::scrubber::State,
    tick: u32,
    current: u32,
    prefetched: u32,
)
    ensures
        ({
            let reach = vstd::math::min(tick as int, prefetched as int) as u32;
            let (t, r) = scrubbed(s, Pointer::Pressed(Some(tick)), current, prefetched);
            let (u, q) = scrubbed(s, Pointer::Moved(Some(tick)), current, prefetched);
            let (v, p) = scrubbed(s, Pointer::Released, current, prefetched);
            &&& r == Scrub::Seek(reach) && t.dragging && t.last_emitted == Some(reach)
            &&& s.dragging && s.last_emitted != Some(reach) ==> q == Scrub::Seek(reach)
                && u.last_emitted == Some(reach) && u.dragging
            &&& s.dragging && s.last_emitted == Some(reach) ==> q == Scrub::Captured && u == s
            &&& !s.dragging ==> q == Scrub::Ignored && u == s
            &&& s.dragging ==> (s.last_emitted matches Some(x) ==> p == Scrub::Commit(x))
            &&& s.dragging && s.last_emitted is None ==> p == Scrub::Commit(current)
            &&& s.dragging ==> !v.dragging && v.last_emitted is None
            &&& !s.dragging ==> p == Scrub::Ignored && v == s
            &&& scrubbed(s, Pointer::Pressed(None), current, prefetched) == (s, Scrub::Ignored)
        }),
{
}

// ---------------------------------------------------------------------
// Telemetry
// ---------------------------------------------------------------------

/// A number is good news up to one distance from zero, a warning up to another,
/// and bad news beyond; its sign does not matter.
pub proof fn law_tones_go_by_distance(v: i32, good: i32, warn: i32)
    requires
        v > i32::MIN,
        0 <= good <= warn,
    ensures
        -good <= v <= good ==> tone_by_distance(v, good, warn) == Tone::Good,
        (good < v <= warn || -warn <= v < -good) ==> tone_by_distance(v, good, warn) == Tone::Warn,
        v > warn || v < -warn ==> tone_by_distance(v, good, warn) == Tone::Bad,
        tone_by_distance(v, good, warn) == tone_by_distance((-v) as i32, good, warn),
{
}

/// What the readings say and how good they are: the skew with its sign, up to
/// three and seven; the lead up to eight and sixteen; the rollback depth up to
/// two and five. Without a sample there is a dash.
pub proof fn law_what_the_readings_say(v: i32, d: u32)
    requires
        v > i32::MIN,
        d <= i32::MAX,
    ensures
        skew_reading_of(Some(v)).value == always_signed(v as int),
        skew_reading_of(Some(v)).tone == Tone::Good <==> -3 <= v <= 3,
        skew_reading_of(Some(v)).tone == Tone::Bad <==> v > 7 || v < -7,
        lead_reading_of(Some(v)).value == signed(v as int),
        lead_reading_of(Some(v)).tone == Tone::Good <==> -8 <= v <= 8,
        lead_reading_of(Some(v)).tone == Tone::Bad <==> v > 16 || v < -16,
        depth_reading_of(Some(d)).value == decimal(d as nat),
        depth_reading_of(Some(d)).tone == Tone::Good <==> d <= 2,
        depth_reading_of(Some(d)).tone == Tone::Bad <==> d > 5,
        skew_reading_of(None).value == "—"@ && skew_reading_of(None).tone == Tone::Muted,
        lead_reading_of(None).value == "—"@ && lead_reading_of(None).tone == Tone::Muted,
        depth_reading_of(None).value == "—"@ && depth_reading_of(None).tone == Tone::Muted,
{
}

/// How strong a signal is shown: by the skew, up to three, up to seven, or
/// beyond.
pub proof fn law_how_strong_a_signal_is(skew: int)
    ensures
        signal_of(skew) == Signal::High <==> -3 <= skew <= 3,
        signal_of(skew) == Signal::Low <==> skew > 7 || skew < -7,
        signal_of(skew) == signal_of(-skew),
{
}

/// A number is written with a minus where it is negative, and with a plus
/// otherwise where a sign is asked for.
pub proof fn law_how_numbers_are_signed(v: nat)
    ensures
        signed(v as int) == decimal(v),
        v > 0 ==> signed(-(v as int)) == "-"@ + decimal(v),
        always_signed(v as int) == "+"@ + decimal(v),
        v > 0 ==> always_signed(-(v as int)) == "-"@ + decimal(v),
{
}

/// The worst round trip is one that was measured, or zero where none was.
pub proof fn law_the_worst_round_trip_was_measured(peers: Seq<PeerStatView>, i: int)
    requires
        0 <= i < peers.len(),
    ensures
        peers[i].rtt_micros matches Some(r) ==> r <= worst_ping_of(peers),
        worst_ping_of(peers) > 0 ==> exists|k: int|
            0 <= k < peers.len() && (#[trigger] peers[k]).rtt_micros == Some(
                worst_ping_of(peers),
            ),
    decreases peers.len(),
{
    let d = peers.drop_last();
    let n = peers.len() - 1;
    if d.len() > 0 {
        let k = if i < n {
            i
        } else {
            0
        };
        law_the_worst_round_trip_was_measured(d, k);
        if worst_ping_of(d) > 0 {
            let j = choose|k: int|
                0 <= k < d.len() && (#[trigger] d[k]).rtt_micros == Some(worst_ping_of(d));
            assert(peers[j].rtt_micros == Some(worst_ping_of(d)));
        }
        assert(d[k] == peers[k]);
    } else {
        assert(worst_ping_of(d) == 0);
    }
    assert(peers[n] == peers.last());
}

/// The colours good and bad news have.
pub proof fn law_what_tones_look_like()
    ensures
        tone_color(Tone::Muted) == "#565f89"@,
        tone_color(Tone::Good) == "#9ece6a"@,
        tone_color(Tone::Warn) == "#e0af68"@,
        tone_color(Tone::Bad) == "#f7768e"@,
{
}

// ---------------------------------------------------------------------
// Settings, and the session's end
// ---------------------------------------------------------------------

/// A click on a control selects it and waits for its input; on the one that
/// waits already it waits no longer.
pub proof fn law_what_a_click_waits_for(e: BindEditorView, key: MappedKey)
    ensures
        clicked(e, key).selected == Some(key),
        e.capture.target != Some(key) ==> clicked(e, key).capture.target == Some(key),
        e.capture.target == Some(key) ==> clicked(e, key).capture.target is None,
{
}

/// What the controls are called.
pub proof fn law_what_controls_are_called(key: MappedKey)
    ensures
        match key {
            MappedKey::Up => key_name(key) == "Up"@,
            MappedKey::Down => key_name(key) == "Down"@,
            MappedKey::Left => key_name(key) == "Left"@,
            MappedKey::Right => key_name(key) == "Right"@,
            MappedKey::A => key_name(key) == "A"@,
            MappedKey::B => key_name(key) == "B"@,
            MappedKey::L => key_name(key) == "L"@,
            MappedKey::R => key_name(key) == "R"@,
            MappedKey::Start => key_name(key) == "Start"@,
            MappedKey::Select => key_name(key) == "Select"@,
            MappedKey::SpeedUp => key_name(key) == "Fast-forward"@,
        },
{
}

/// What an update of the names says.
pub proof fn law_what_an_update_says(e: Seq<char>)
    ensures
        update_report(None) == (FlashedView {
            slot: Slot::Database,
            text: "Updated!"@,
            ok: true,
            ms: 2500,
        }),
        update_report(Some(e)) == (FlashedView {
            slot: Slot::Database,
            text: "update failed: "@ + e,
            ok: false,
            ms: 5000,
        }),
{
}

/// What is said of a session that is over; players are counted from one.
pub proof fn law_what_is_said_of_an_end(player: usize, tick: u32, e: String)
    ensures
        end_text(SessionEnd::LocalQuit) == "Session ended."@,
        end_text(SessionEnd::Unplugged) == "Unplugged."@,
        end_text(SessionEnd::PeerQuit { player }) == "player "@ + decimal(player as nat + 1)
            + " left the session."@,
        end_text(SessionEnd::PeerDisconnected { player }) == "Connection to player "@ + decimal(
            player as nat + 1,
        ) + " lost."@,
        end_text(SessionEnd::Desync { tick }) == "Desync detected at tick "@ + decimal(tick as nat)
            + " — session aborted."@,
        end_text(SessionEnd::Error(e)) == "Session error: "@ + e@,
{
}

/// Two ends that are taken for the same are told in the same words, and are
/// survived alike.
pub proof fn law_the_same_end_is_told_the_same(a: SessionEnd, b: SessionEnd)
    requires
        crate::runtime::same_end(a, b),
    ensures
        end_text(a) == end_text(b),
        crate::runtime::unplug_text(a) == crate::runtime::unplug_text(b),
        crate::session::end_unplugs(a) == crate::session::end_unplugs(b),
{
}

/// A session is called by its game's shown name, where the library has it.
pub proof fn law_what_a_session_is_called(crc: u32, roms: Seq<RomInfoView>)
    ensures
        title(None, roms) == "Session"@,
        !holds(roms, crc) ==> title(Some(crc), roms) == "Session"@,
        holds(roms, crc) ==> exists|i: int|
            0 <= i < roms.len() && (#[trigger] roms[i]).crc32 == crc && title(Some(crc), roms)
                == shown_name(roms[i]),
{
    crate::library::lemma_crc_at(roms, crc);
    if holds(roms, crc) {
        let i = crate::library::crc_at(roms, crc) as int;
        assert(roms[i].crc32 == crc);
    }
}

} // verus!
