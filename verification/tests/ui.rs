use gbaroll::input::{Bindings, Capture, MappedKey, Mapping};
use gbaroll::library::{rom_info, Library, RomInfo};
use gbaroll::net::lobby::{LobbyCommand, LobbyEvent, LobbyMode, SessionBundle};
use gbaroll::nointro::DatIndex;
use gbaroll::replay::{Metadata, PlayerMeta, Writer};
use gbaroll::session::{LinkKind, MetricSample, PeerStat, SessionEnd, SessionKind};
use gbaroll::signaling::{PlayerInfo, StartPlayer};
use gbaroll::ui::cable::{
    cable_status, captures, create_hint, joins, keep_code_chars, keeps_waiting, resolve_roms,
    room_rows, sanitize_room_code, Cable, CaptureOutcome, DrainInput, DrainOutput, LinkUp, LobbyUi,
    MachineState, RoomRow, SeatNote,
};
use gbaroll::ui::lobby::{content, Content, Controls, SeatStatus, SlotRow, State};
use gbaroll::ui::play::{
    empty_library_text, expire, import_flashes, rename_to, rom_meta, save_file_for, search_roms,
    search_saves, shown_saves, Flash, ImportCounts, Picks, SaveEditor, SaveRow, Slot,
};
use gbaroll::ui::replays::{count_text, row, State as Replays};
use gbaroll::ui::scrubber::{Pointer, Scrub, State as Scrubber};
use gbaroll::ui::play::screen::{
    boot_failed, export, launch, library_pane, listing, LibraryPane, Screen,
};
use gbaroll::ui::session_view::{
    canvas_size, end_message, key_hints, link_chip, save_after, session_caption, session_title,
    stage, Chip, Stage,
};
use gbaroll::ui::settings::{key_label, update_flash, BindEditor, Prompt};
use gbaroll::ui::telemetry::{
    card_body, clamp_delay, depth_reading, latest_ping, lead_reading, leave_label, seat_color,
    signal_icon, skew_reading, skew_tone_css, tone_for_abs, tone_for_ping, worst_ping, AutoCopy,
    CardBody, Signal, TeleTab, Tone,
};

fn rom(title: &str, crc32: u32, dat_name: Option<&str>) -> RomInfo {
    RomInfo {
        file_name: format!("{title}.gba"),
        title: title.to_string(),
        code: "ABCE".to_string(),
        crc32,
        size: 4_194_304,
        dat_name: dat_name.map(|n| n.to_string()),
    }
}

fn library() -> Library {
    Library { roms: vec![rom("ONE", 1, Some("First Game")), rom("TWO", 2, None)] }
}

fn player(nick: &str, crc: u32, ready: bool) -> PlayerInfo {
    PlayerInfo {
        nick: nick.to_string(),
        ready,
        rom_crc32: crc,
        rom_title: "RAW".to_string(),
        seat: 40 + crc,
    }
}

// ---------------------------------------------------------------------
// Play
// ---------------------------------------------------------------------

fn counts(roms: u32, saves: u32, skipped: u32, homeless: u32) -> ImportCounts {
    ImportCounts {
        roms,
        saves,
        skipped,
        saves_without_game: homeless,
        rom_crc32: Some(1),
        save_name: Some("s.sav".to_string()),
    }
}

fn flashes(c: ImportCounts) -> Vec<(Slot, String, bool, u32)> {
    import_flashes(&c).into_iter().map(|f| (f.slot, f.flash.text, f.flash.ok, f.ms)).collect()
}

#[test]
fn imports_are_reported_where_they_landed() {
    let s = |t: &str| t.to_string();
    assert_eq!(flashes(counts(2, 0, 0, 0)), vec![(Slot::Roms, s("Imported 2!"), true, 3000)]);
    assert_eq!(
        flashes(counts(2, 1, 3, 0)),
        vec![
            (Slot::Roms, s("Imported 2, skipped 3"), false, 3000),
            (Slot::Saves, s("Imported 1!"), true, 3000),
        ]
    );
    assert_eq!(
        flashes(counts(0, 1, 3, 0)),
        vec![(Slot::Saves, s("Imported 1, skipped 3"), false, 3000)]
    );
    assert_eq!(
        flashes(counts(0, 0, 3, 0)),
        vec![(Slot::Fail, s("Import failed, skipped 3"), false, 5000)]
    );
    assert_eq!(
        flashes(counts(0, 0, 0, 0)),
        vec![(Slot::Fail, s("Import failed: no files received"), false, 5000)]
    );
    assert_eq!(
        flashes(counts(0, 0, 1, 2)),
        vec![
            (Slot::Saves, s("Pick a game first, then import its saves"), false, 5000),
            (Slot::Fail, s("Skipped 1"), false, 5000),
        ]
    );
}

#[test]
fn flashes_expire_unless_newer() {
    let f = || Some(Flash { text: "a".to_string(), ok: true });
    assert_eq!(expire(f(), "a"), None);
    assert_eq!(expire(f(), "b"), f());
    assert_eq!(expire(None, "b"), None);
}

fn picks() -> Picks {
    Picks {
        selected_game: None,
        selected_save: None,
        last_game: None,
        last_saves: std::collections::HashMap::new(),
    }
}

#[test]
fn each_game_remembers_its_save() {
    let mut p = picks();
    p.pick_game(1);
    p.pick_save("one.sav");
    p.pick_game(2);
    assert_eq!(p.selected_save, None);
    p.pick_save("two.sav");
    p.pick_game(1);
    assert_eq!(p.selected_save, Some("one.sav".to_string()));
    assert_eq!(p.last_game, Some(1));
    p.pick_fresh();
    p.pick_game(2);
    p.pick_game(1);
    assert_eq!(p.selected_save, None);
}

#[test]
fn lone_arrivals_are_selected() {
    let mut p = picks();
    p.select_imported(&counts(1, 1, 0, 0));
    assert_eq!((p.selected_game, p.selected_save.clone()), (Some(1), None));
    p.select_imported(&counts(0, 1, 0, 0));
    assert_eq!(p.selected_save, Some("s.sav".to_string()));
    assert_eq!(p.last_saves.get(&1), Some(&"s.sav".to_string()));
    let mut p = picks();
    p.select_imported(&counts(2, 2, 0, 0));
    assert_eq!((p.selected_game, p.selected_save), (None, None));
}

#[test]
fn stale_picks_are_pruned() {
    let listing = vec!["b.sav".to_string()];
    let mut p = picks();
    p.pick_game(1);
    p.pick_save("a.sav");
    p.prune(Some(1), false, &listing);
    p.prune(Some(2), true, &listing);
    assert_eq!(p.selected_save, Some("a.sav".to_string()));
    p.prune(Some(1), true, &listing);
    assert_eq!(p.selected_save, None);
    assert!(p.last_saves.is_empty());
    p.pick_save("b.sav");
    p.prune(Some(1), true, &listing);
    assert_eq!(p.selected_save, Some("b.sav".to_string()));
}

#[test]
fn picks_follow_renames_and_deletes() {
    let mut p = picks();
    p.pick_game(1);
    p.pick_save("a.sav");
    p.renamed(1, "a.sav", "b.sav");
    assert_eq!(p.selected_save, Some("b.sav".to_string()));
    assert_eq!(p.last_saves.get(&1), Some(&"b.sav".to_string()));
    p.deleted_save(1, "other.sav");
    assert_eq!(p.selected_save, Some("b.sav".to_string()));
    p.deleted_save(1, "b.sav");
    assert_eq!(p.selected_save, None);
    assert!(p.last_saves.is_empty());
    p.pick_save("c.sav");
    p.deleted_game(2);
    assert_eq!(p.selected_game, Some(1));
    p.deleted_game(1);
    assert_eq!((p.selected_game, p.last_game, p.selected_save), (None, None, None));
}

#[test]
fn searches_look_at_names_titles_and_codes() {
    let roms = library().roms;
    let found = |s: &str| -> Vec<u32> {
        search_roms(&roms, s).iter().map(|r| r.crc32).collect()
    };
    assert_eq!(found(""), vec![1, 2]);
    assert_eq!(found("first"), vec![1]);
    assert_eq!(found("tWo"), vec![2]);
    assert_eq!(found("abc"), vec![1, 2]);
    assert_eq!(found("zzz"), Vec::<u32>::new());
    let saves = vec!["Alpha.sav".to_string(), "beta.sav".to_string()];
    assert_eq!(search_saves(&saves, "ALP"), vec!["Alpha.sav".to_string()]);
    assert_eq!(search_saves(&saves, "").len(), 2);
    assert_eq!(shown_saves(Some(1), Some(1), saves.clone()).len(), 2);
    assert!(shown_saves(Some(1), Some(2), saves).is_empty());
    assert_eq!(empty_library_text(false).0, "No games yet");
    assert_eq!(empty_library_text(true).1, "Try a title or game code.");
    assert_eq!(rom_meta(&roms[0]), "ABCE · 00000001 · 4096 KiB");
}

#[test]
fn saves_are_renamed_by_their_stem() {
    assert_eq!(rename_to("  new name ", "old.srm"), Some("new name.srm".to_string()));
    assert_eq!(rename_to("   ", "old.srm"), None);
    assert_eq!(save_file_for(&None, &library().roms[0]), "First Game.sav");
    assert_eq!(save_file_for(&Some("x.sav".to_string()), &library().roms[0]), "x.sav");
    let mut e = SaveEditor {
        rename_target: None,
        rename_value: String::new(),
        pending_delete: None,
    };
    assert_eq!(e.row("a.sav"), SaveRow::Plain);
    e.arm_delete("a.sav");
    assert_eq!(e.row("a.sav"), SaveRow::Confirming);
    e.start_rename("a.sav");
    assert_eq!((e.row("a.sav"), e.rename_value.as_str()), (SaveRow::Renaming, "a"));
    e.arm_delete("b.sav");
    assert_eq!((e.row("a.sav"), e.row("b.sav")), (SaveRow::Plain, SaveRow::Confirming));
}

#[test]
fn panes_are_chosen() {
    assert_eq!(library_pane(true, true, 3, 3), LibraryPane::Unavailable);
    assert_eq!(library_pane(false, false, 0, 0), LibraryPane::Scanning);
    assert_eq!(library_pane(false, true, 0, 0), LibraryPane::Empty { any: false });
    assert_eq!(library_pane(false, true, 2, 0), LibraryPane::Empty { any: true });
    assert_eq!(library_pane(false, true, 2, 1), LibraryPane::List);
    let l = listing(Some(3), 0, Some(vec!["a".to_string()]));
    assert_eq!((l.for_game, l.authoritative, l.saves.len()), (Some(3), true, 1));
    assert!(!listing(Some(3), 1, Some(vec![])).authoritative);
    let l = listing(Some(3), 0, None);
    assert_eq!((l.for_game, l.authoritative, l.saves.len()), (None, false, 0));
}

fn screen() -> Screen {
    let mut picks = picks();
    picks.pick_game(1);
    picks.pick_save("a.sav");
    let mut editor = SaveEditor {
        rename_target: None,
        rename_value: String::new(),
        pending_delete: None,
    };
    editor.start_rename("a.sav");
    Screen {
        picks,
        editor,
        pending_delete: Some("ONE.gba".to_string()),
        library_rev: 0,
        saves_rev: u64::MAX,
    }
}

#[test]
fn storage_answers() {
    let mut s = screen();
    s.editor.rename_value = " b ".to_string();
    assert_eq!(s.commit_rename("a.sav"), Some((1, "b.sav".to_string())));
    let f = s.rename_done(1, "a.sav", "b.sav", Err("full".to_string())).unwrap();
    assert_eq!((f.flash.text.as_str(), f.ms), ("couldn't rename a.sav: full", 5000));
    assert_eq!(s.picks.selected_save, Some("a.sav".to_string()));
    assert_eq!((s.editor.rename_target.clone(), s.saves_rev), (None, 0));
    assert!(s.rename_done(1, "a.sav", "b.sav", Ok(())).is_none());
    assert_eq!(s.picks.selected_save, Some("b.sav".to_string()));
    let f = s.save_delete_done(1, "b.sav", Err("busy".to_string())).unwrap();
    assert_eq!(f.flash.text, "couldn't delete b.sav: busy");
    assert!(s.save_delete_done(1, "b.sav", Ok(())).is_none());
    assert_eq!(s.picks.selected_save, None);
    let f = s.rom_delete_done(1, "ONE.gba", Err("busy".to_string()), Ok(())).unwrap();
    assert_eq!(f.flash.text, "couldn't delete ONE.gba: busy");
    assert_eq!((s.picks.selected_game, s.library_rev), (Some(1), 1));
    let f = s.rom_delete_done(1, "ONE.gba", Ok(()), Err("busy".to_string())).unwrap();
    assert_eq!(f.flash.text, "deleted ONE.gba, but not its saves: busy");
    assert_eq!((s.picks.selected_game, s.pending_delete.clone()), (None, None));
    s.editor.rename_value = "c".to_string();
    assert_eq!(s.commit_rename("a.sav"), None);
    assert_eq!(export("a.sav", Some(vec![1])).unwrap(), vec![1]);
    assert_eq!(export("a.sav", None).unwrap_err().flash.text, "couldn't read a.sav");
}

#[test]
fn games_are_launched() {
    let mut d = vec![0u8; 0xc0];
    d[0xb2] = 0x96;
    d[0xa0] = b'T';
    d[0xbd] = 0u8.wrapping_sub(b'T').wrapping_sub(0x96).wrapping_sub(0x19);
    let info = rom_info("t.gba", &d).unwrap();
    let l = launch(&info, &None, Ok(Some(d.clone())), Some(vec![1])).unwrap();
    assert_eq!((l.rom, l.save, l.save_file.as_str()), (d.clone(), None, "T.sav"));
    let pick = Some("p.sav".to_string());
    let l = launch(&info, &pick, Ok(Some(d.clone())), Some(vec![1])).unwrap();
    assert_eq!((l.save, l.save_file.as_str()), (Some(vec![1]), "p.sav"));
    let f = launch(&info, &pick, Ok(None), None).unwrap_err();
    assert_eq!((f.flash.text.as_str(), f.ms), ("t.gba disappeared from the library", 6000));
    assert_eq!(boot_failed("no").flash.text, "couldn't start session: no");
}

// ---------------------------------------------------------------------
// Lobby
// ---------------------------------------------------------------------

fn lobby_state(players: Vec<PlayerInfo>, my_idx: usize) -> State {
    let mut s = State::new();
    s.code = Some("AB2C3D".to_string());
    s.players = players;
    s.my_idx = my_idx;
    s
}

#[test]
fn the_lobby_connects() {
    let mut s = State::new();
    match content(&s, &library()) {
        Content::Connecting { status } => assert_eq!(status, "Connecting to the lobby…"),
        other => panic!("{other:?}"),
    }
    s.status = Some("soon".to_string());
    assert!(matches!(content(&s, &library()), Content::Connecting { status } if status == "soon"));
}

fn host_hint(players: Vec<PlayerInfo>) -> (bool, String) {
    match content(&lobby_state(players, 0), &library()) {
        Content::Room { controls: Controls::Host { can_start, hint }, .. } => (can_start, hint),
        other => panic!("{other:?}"),
    }
}

#[test]
fn hosts_wait_for_everyone() {
    let h = || player("host", 1, false);
    assert_eq!(host_hint(vec![h()]), (false, "Waiting for someone to join.".to_string()));
    assert_eq!(
        host_hint(vec![h(), player("a", 9, true)]),
        (false, "Add the missing ROM before starting.".to_string())
    );
    assert_eq!(
        host_hint(vec![h(), player("a", 2, false)]),
        (false, "Waiting for 1 player to get ready.".to_string())
    );
    assert_eq!(
        host_hint(vec![h(), player("a", 2, false), player("b", 2, false)]),
        (false, "Waiting for 2 players to get ready.".to_string())
    );
    assert_eq!(
        host_hint(vec![h(), player("a", 2, true)]),
        (true, "Everyone is ready. This will plug in the virtual cable.".to_string())
    );
}

#[test]
fn guests_ready_up() {
    let s = lobby_state(vec![player("host", 1, false), player("me", 9, false)], 1);
    match content(&s, &library()) {
        Content::Room { slots, missing_rom, controls, .. } => {
            assert!(missing_rom);
            assert_eq!(slots.len(), 4);
            match &slots[1] {
                SlotRow::Taken { line, status, rom_title, missing_rom } => {
                    assert_eq!(line, "P2 · me · You");
                    assert_eq!(*status, SeatStatus::Waiting);
                    assert_eq!(status.label(), "Waiting");
                    assert_eq!(rom_title, "RAW");
                    assert!(*missing_rom);
                },
                other => panic!("{other:?}"),
            }
            assert!(matches!(&slots[0],
                SlotRow::Taken { line, status: SeatStatus::Host, rom_title, .. }
                    if line == "P1 · host" && rom_title == "First Game"));
            assert!(matches!(&slots[3], SlotRow::Open { label } if label == "P4"));
            assert!(matches!(controls, Controls::Guest { can_toggle: false, .. }));
        },
        other => panic!("{other:?}"),
    }
    let mut s = lobby_state(vec![player("host", 1, false), player("me", 2, true)], 1);
    s.starting = true;
    s.status = Some("x".to_string());
    assert!(matches!(content(&s, &library()),
        Content::Room { controls: Controls::Starting { status }, status: None, .. }
            if status == "x"));
}

// ---------------------------------------------------------------------
// Cable
// ---------------------------------------------------------------------

fn cable() -> Cable {
    let mut c = Cable { ui: None, notice: None, panel_open: false, live: false };
    let lib = library();
    let args = c
        .start_lobby(
            "ws://x".to_string(),
            "me".to_string(),
            Some((LinkKind::Wireless, Some(1))),
            Some(&lib),
            LobbyMode::Create,
        )
        .unwrap();
    assert!(args.wireless);
    // The header title travels, not the library's name.
    assert_eq!(args.rom_title, "ONE");
    c
}

const SOLO: MachineState = MachineState { kind: Some(SessionKind::Local), paused: false };
const LINKED: MachineState = MachineState { kind: Some(SessionKind::Netplay), paused: false };
const FROZEN: MachineState = MachineState { kind: Some(SessionKind::Local), paused: true };

fn roster(players: Vec<PlayerInfo>, your_idx: usize) -> DrainInput {
    DrainInput::Event(LobbyEvent::Roster { players, your_idx })
}

#[test]
fn rooms_need_a_rom() {
    let mut c = Cable { ui: None, notice: None, panel_open: false, live: false };
    let lib = library();
    let mut open = |port, l: Option<&Library>| {
        c.start_lobby(String::new(), String::new(), port, l, LobbyMode::Create).is_some()
    };
    assert!(!open(None, Some(&lib)));
    assert!(!open(Some((LinkKind::Cable, None)), Some(&lib)));
    assert!(!open(Some((LinkKind::Cable, Some(9))), Some(&lib)));
    assert!(!open(Some((LinkKind::Cable, Some(1))), None));
    assert!(open(Some((LinkKind::Cable, Some(1))), Some(&lib)));
    // Once in a room, no other is opened.
    assert!(!open(Some((LinkKind::Cable, Some(1))), Some(&lib)));
    assert_eq!(c.notice, None);
    assert!(c.panel_open && c.live);
}

#[test]
fn rosters_are_answered_once() {
    let lib = library();
    let mut c = cable();
    let out = c.drain(roster(vec![player("me", 1, false)], 0), SOLO, Some(&lib));
    assert!(matches!(out.as_slice(),
        [DrainOutput::Send(LobbyCommand::SetReady { ready: true })]));
    let out = c.drain(roster(vec![player("me", 1, true)], 0), SOLO, Some(&lib));
    assert!(out.is_empty());
    let out = c.drain(roster(vec![player("me", 1, true), player("x", 9, true)], 0), SOLO, Some(&lib));
    assert!(matches!(out.as_slice(),
        [DrainOutput::Send(LobbyCommand::SetReady { ready: false })]));
    assert!(c.room_has_company());
}

#[test]
fn held_machines_are_let_go_alone() {
    let lib = library();
    let mut c = cable();
    assert!(c.notify_session_dropped(true));
    let two = || vec![player("me", 1, true), player("x", 2, true)];
    assert!(c.drain(roster(two(), 0), FROZEN, Some(&lib)).is_empty());
    assert_eq!(
        c.ui.as_ref().unwrap().status,
        Some("Player left — waiting to relink…".to_string())
    );
    let out = c.drain(roster(vec![player("me", 1, true)], 0), FROZEN, Some(&lib));
    assert!(matches!(out.as_slice(), [DrainOutput::Resume]));
    assert_eq!(c.ui.as_ref().unwrap().status, None);
}

#[test]
fn merges_walk_out_and_capture() {
    let lib = library();
    let mut c = cable();
    let out = c.drain(DrainInput::Event(LobbyEvent::Starting), LINKED, Some(&lib));
    assert!(matches!(out.as_slice(), [DrainOutput::Unplug, DrainOutput::Capture]));
    assert!(c.ui.as_ref().unwrap().starting);
    let out = c.drain(DrainInput::Capture(CaptureOutcome::Blob(vec![1])), SOLO, Some(&lib));
    assert!(matches!(out.as_slice(), [DrainOutput::Send(LobbyCommand::Boot(b))] if *b == vec![1]));
    let bundle = SessionBundle {
        room_code: String::new(),
        players: vec![],
        local_player: 0,
        boots: vec![],
    };
    let ready = DrainInput::Event(LobbyEvent::SessionReady(bundle));
    assert!(matches!(c.drain(ready, SOLO, Some(&lib)).as_slice(), [DrainOutput::PlugIn(_)]));
    assert!(c.drain(DrainInput::Plugged(Ok(())), LINKED, Some(&lib)).is_empty());
    let ui = c.ui.as_ref().unwrap();
    assert!(!ui.starting && ui.status.is_none() && c.live);
    assert!(keeps_waiting(Some(SessionKind::Netplay), 99));
    assert!(!keeps_waiting(Some(SessionKind::Netplay), 100));
    assert!(!keeps_waiting(Some(SessionKind::Local), 0));
    assert!(captures(Some(SessionKind::Local)));
    assert!(!captures(Some(SessionKind::Netplay)));
    assert!(!captures(None));
    let out = c.leave_clicked();
    assert!(matches!(
        out.as_slice(),
        [DrainOutput::Send(LobbyCommand::Leave), DrainOutput::Resume]
    ));
    assert!(c.ui.is_none() && !c.live);
    assert!(matches!(c.leave_clicked().as_slice(), [DrainOutput::Resume]));
}

fn fails(input: DrainInput, machine: MachineState) -> (Vec<DrainOutput>, String) {
    let lib = library();
    let mut c = cable();
    let out = c.drain(input, machine, Some(&lib));
    assert!(c.ui.is_none() && !c.live);
    (out, c.notice.unwrap())
}

#[test]
fn failures_let_the_machine_run() {
    let f = |s: &str| s.to_string();
    let cases = vec![
        (DrainInput::Capture(CaptureOutcome::Gone), "the game ended before the room linked up"),
        (
            DrainInput::Capture(CaptureOutcome::Failed(f("x"))),
            "couldn't capture the machine: x",
        ),
        (DrainInput::RomsFailed(f("storage unavailable")), "storage unavailable"),
        (DrainInput::Plugged(Err(f("y"))), "couldn't link up: y"),
        (DrainInput::Event(LobbyEvent::Fatal(f("z"))), "z"),
        (DrainInput::Event(LobbyEvent::Kicked), "The room's creator removed you."),
    ];
    for (input, why) in cases {
        let (out, notice) = fails(input, SOLO);
        assert_eq!(notice, why);
        assert!(matches!(out.as_slice(), [DrainOutput::Resume, DrainOutput::Stop]));
    }
    let (out, _) = fails(DrainInput::Event(LobbyEvent::Kicked), LINKED);
    assert!(matches!(out.as_slice(),
        [DrainOutput::Unplug, DrainOutput::Resume, DrainOutput::Stop]));
    let lib = library();
    let mut c = cable();
    let out = c.drain(DrainInput::Ended, SOLO, Some(&lib));
    assert!(matches!(out.as_slice(), [DrainOutput::Resume, DrainOutput::Stop]));
    assert_eq!(c.notice, None);
    let mut c = cable();
    assert!(c.leave());
    assert!(!c.leave());
    let mut c = cable();
    c.drain(DrainInput::Event(LobbyEvent::MergeFailed(f("m"))), SOLO, Some(&lib));
    assert_eq!(c.ui.unwrap().status, Some(f("m")));
}

#[test]
fn roms_are_resolved_in_order() {
    let lib = library();
    let p = |nick: &str, crc| StartPlayer { nick: nick.to_string(), rom_crc32: crc };
    let players = vec![p("a", 1), p("b", 0xabc)];
    assert_eq!(
        resolve_roms(&players, &lib, Some(&vec![Ok(vec![1]), Ok(vec![])])),
        Err("missing a copy of b's ROM (crc32 00000abc)".to_string())
    );
    let players = vec![p("a", 1), p("b", 2)];
    assert_eq!(
        resolve_roms(&players, &lib, Some(&vec![Err("e".to_string()), Ok(vec![])])),
        Err("e".to_string())
    );
    assert_eq!(
        resolve_roms(&players, &lib, Some(&vec![Ok(vec![1]), Ok(vec![2])])),
        Ok(vec![vec![1], vec![2]])
    );
    assert_eq!(
        resolve_roms(&players, &lib, None),
        Err("storage unavailable".to_string())
    );
}

fn ui(players: Vec<PlayerInfo>, my_idx: usize) -> LobbyUi {
    LobbyUi {
        code: Some("AB2C3D".to_string()),
        players,
        my_idx,
        starting: false,
        status: None,
        created: true,
    }
}

#[test]
fn rosters_are_drawn() {
    let mut dat = DatIndex::default();
    dat.add_text("game ( name \"Known\" rom ( crc 00000009 ) )");
    let u = ui(vec![player("me", 1, true), player("", 9, true), player("c", 2, false)], 0);
    let rows = room_rows(&u, &library(), &dat, true);
    assert_eq!(rows.len(), 5);
    let seat = |i: usize| match &rows[i] {
        RoomRow::Seat { name, game, note, kick } => (name.as_str(), game.as_str(), *note, *kick),
        RoomRow::Open => panic!("open"),
    };
    assert_eq!(seat(0), ("me", "First Game", SeatNote::You, None));
    assert_eq!(seat(1), ("Player 2", "Known", SeatNote::MissingThisRom, Some(49)));
    assert_eq!(seat(2), ("c", "TWO", SeatNote::MissingARom, Some(42)));
    assert!(matches!(rows[4], RoomRow::Open));
    assert_eq!(room_rows(&u, &library(), &dat, false).len(), 4);
}

#[test]
fn the_link_up_button() {
    let lib = library();
    let with = |players, my_idx| Cable {
        ui: Some(ui(players, my_idx)),
        notice: None,
        panel_open: true,
        live: true,
    };
    let both = || vec![player("a", 1, true), player("b", 2, true)];
    assert_eq!(with(both(), 0).link_up(true, &lib), LinkUp::Ready);
    assert_eq!(with(both(), 0).link_up(false, &lib), LinkUp::Hidden);
    assert_eq!(with(both(), 1).link_up(true, &lib), LinkUp::Hidden);
    assert_eq!(with(vec![player("a", 1, true)], 0).link_up(true, &lib), LinkUp::Blocked);
    let lacking = vec![player("a", 1, true), player("b", 9, true)];
    assert_eq!(with(lacking, 0).link_up(true, &lib), LinkUp::Blocked);
    let mut c = with(both(), 0);
    assert!(c.press_link_up());
    assert_eq!(c.link_up(true, &lib), LinkUp::Blocked);
    assert_eq!(c.ui.unwrap().status, Some("Linking up…".to_string()));
}

#[test]
fn the_status_line() {
    let lib = library();
    let line = |u: LobbyUi, l| cable_status(&u, l, &lib);
    let both = || vec![player("a", 1, true), player("b", 2, true)];
    assert_eq!(line(ui(both(), 0), LinkKind::Cable), "");
    assert_eq!(
        line(ui(both(), 1), LinkKind::Cable),
        "Waiting for the room's creator to link up."
    );
    assert_eq!(
        line(ui(vec![player("a", 1, true)], 0), LinkKind::Cable),
        "Share the code — link up when everyone's in."
    );
    assert_eq!(
        line(ui(vec![player("a", 1, true)], 0), LinkKind::Wireless),
        "Share the code — players merge in as they arrive."
    );
    assert_eq!(
        line(ui(vec![player("a", 1, true), player("b", 9, true)], 0), LinkKind::Wireless),
        "Someone is missing a ROM."
    );
}

#[test]
fn codes_are_typed() {
    assert_eq!(sanitize_room_code("ab-1l2c 3dxyz"), "AB2C3D");
    // A long s, and a sharp one, are capital S's.
    assert_eq!(sanitize_room_code("\u{17f}\u{df}"), "SSS");
    assert_eq!(sanitize_room_code("ioIO01"), "");
    assert_eq!(keep_code_chars(&['a', 'A', '2']), "A2");
    assert!(joins(&sanitize_room_code("ab2c3d")));
    assert!(!joins(&sanitize_room_code("ab2c3")));
    assert!(!joins(""));
    assert!(create_hint(LinkKind::Cable).ends_with("link the cable up."));
    assert!(create_hint(LinkKind::Wireless).ends_with("over your wireless adapter."));
}

// ---------------------------------------------------------------------
// Replays
// ---------------------------------------------------------------------

fn recording(started: Option<u64>, crcs: &[u32]) -> Vec<u8> {
    let m = Metadata {
        local_player: 0,
        started_at_unix_micros: started,
        rtc_unix_micros: None,
        players: crcs
            .iter()
            .map(|c| PlayerMeta {
                nick: format!("n{c}"),
                rom_crc32: *c,
                rom_title: format!("T{c}"),
                rom_code: "ABCE".to_string(),
                boot: None,
            })
            .collect(),
    };
    let mut w = Writer::new(Vec::new(), &m);
    w.push(&vec![1; crcs.len()]);
    w.finish()
}

#[test]
fn the_newest_replays_come_first() {
    let files = vec![
        ("a.gbrr".to_string(), recording(Some(5), &[1, 1])),
        ("b.GBRR".to_string(), recording(None, &[1, 1])),
        ("c.gbrr".to_string(), recording(Some(9), &[1, 9])),
        ("d.gbrr".to_string(), recording(Some(5), &[1, 2])),
        ("e.txt".to_string(), recording(Some(99), &[1, 1])),
        (".gbrr".to_string(), recording(Some(99), &[1, 1])),
        ("f.gbrr".to_string(), vec![1, 2, 3]),
    ];
    let s = Replays::scan(&files);
    let names: Vec<&str> = s.entries.iter().map(|e| e.path.as_str()).collect();
    assert_eq!(names, vec!["c.gbrr", "d.gbrr", "a.gbrr", "b.GBRR"]);
    assert_eq!((s.entries[0].ticks, s.entries[0].complete), (1, true));
    let r = row(&s.entries[0], &library());
    assert_eq!((r.players.as_str(), r.roms.as_str()), ("n1 vs n9", "First Game + T9"));
    assert!(!r.watchable);
    let r = row(&s.entries[2], &library());
    assert_eq!(r.roms, "First Game");
    assert!(r.watchable);
    assert_eq!(count_text(4), "4 replay(s)");
}

// ---------------------------------------------------------------------
// The small ones
// ---------------------------------------------------------------------

#[test]
fn scrubbing_commits_the_preview() {
    let mut s = Scrubber::new();
    assert_eq!(s.update(Pointer::Released, 5, 100), Scrub::Ignored);
    assert_eq!(s.update(Pointer::Pressed(None), 5, 100), Scrub::Ignored);
    assert_eq!(s.update(Pointer::Pressed(Some(20)), 5, 100), Scrub::Seek(20));
    assert_eq!(s.update(Pointer::Moved(Some(20)), 5, 100), Scrub::Captured);
    assert_eq!(s.update(Pointer::Moved(Some(900)), 5, 100), Scrub::Seek(100));
    assert_eq!(s.update(Pointer::Moved(None), 5, 100), Scrub::Ignored);
    assert_eq!(s.update(Pointer::Released, 5, 100), Scrub::Commit(100));
    assert_eq!(s.update(Pointer::Moved(Some(3)), 5, 100), Scrub::Ignored);
}

#[test]
fn ends_are_said() {
    assert_eq!(end_message(&SessionEnd::LocalQuit), "Session ended.");
    assert_eq!(end_message(&SessionEnd::Unplugged), "Unplugged.");
    assert_eq!(end_message(&SessionEnd::PeerQuit { player: 0 }), "player 1 left the session.");
    assert_eq!(
        end_message(&SessionEnd::PeerDisconnected { player: 1 }),
        "Connection to player 2 lost."
    );
    assert_eq!(
        end_message(&SessionEnd::Desync { tick: 7 }),
        "Desync detected at tick 7 — session aborted."
    );
    assert_eq!(end_message(&SessionEnd::Error("e".to_string())), "Session error: e");
    assert_eq!(session_title(Some(1), &library()), "First Game");
    assert_eq!(session_title(Some(8), &library()), "Session");
    assert_eq!(session_title(None, &library()), "Session");
    assert_eq!(session_caption(Some(SessionKind::Netplay)), "Netplay");
    assert_eq!(session_caption(None), "Playing solo");
    assert_eq!(save_after(None, Some("a".to_string())), Some("a".to_string()));
    assert_eq!(
        save_after(Some("b".to_string()), Some("a".to_string())),
        Some("b".to_string())
    );
}

#[test]
fn bindings_are_edited() {
    let mut b = Bindings { inputs: vec![] };
    assert_eq!(b.hint(), "—");
    b.bind("Z".to_string());
    b.bind("Z".to_string());
    assert_eq!(b.hint(), "Z");
    b.bind("X".to_string());
    assert_eq!(b.hint(), "Z +1");
    b.unbind(7);
    b.unbind(0);
    assert_eq!(b.inputs, vec!["X".to_string()]);
    assert_eq!(key_label(MappedKey::SpeedUp), "Fast-forward");
}

#[test]
fn bindings_are_captured() {
    let mut e = BindEditor { selected: None, capture: Capture::new() };
    assert_eq!(e.prompt(), Prompt::Begin);
    e.click(MappedKey::A);
    assert_eq!((e.selected, e.capture.target), (Some(MappedKey::A), Some(MappedKey::A)));
    assert_eq!(e.prompt(), Prompt::Press);
    e.click(MappedKey::B);
    assert_eq!(e.capture.target, Some(MappedKey::B));
    e.click(MappedKey::B);
    assert_eq!((e.selected, e.capture.target), (Some(MappedKey::B), None));
    assert_eq!(e.prompt(), Prompt::Silent);
    let mut m = Mapping::empty();
    for _ in 0..2 {
        e.click(MappedKey::B);
        e.capture.take("Z");
        e.capture.apply(&mut m);
    }
    assert_eq!(e.capture.captured, None);
    assert_eq!(m.slot(MappedKey::B).inputs, vec!["Z".to_string()]);
    assert!(m.slot(MappedKey::A).inputs.is_empty());
    m.unbind(MappedKey::B, 0);
    assert!(m.slot(MappedKey::B).inputs.is_empty());
    e.click(MappedKey::L);
    e.leave();
    e.capture.take("X");
    assert_eq!((e.capture.target, e.capture.captured), (None, None));
    let f = update_flash(Some("no net"));
    assert_eq!((f.flash.text.as_str(), f.flash.ok, f.ms), ("update failed: no net", false, 5000));
    let f = update_flash(None);
    assert_eq!((f.flash.text.as_str(), f.flash.ok, f.ms), ("Updated!", true, 2500));
}

#[test]
fn the_stage_is_set() {
    let s = |chips, paused, end| Stage { chips, paused, end };
    assert_eq!(stage(true, false, false, false), s(true, false, false));
    assert_eq!(stage(true, true, false, false), s(true, true, false));
    assert_eq!(stage(true, true, true, false), s(true, false, false));
    assert_eq!(stage(false, false, false, true), s(false, false, true));
    assert_eq!((canvas_size(true), canvas_size(false)), ((240, 160), (1440, 960)));
    assert_eq!(
        link_chip(Some(SessionKind::Netplay), 5, LinkKind::Cable),
        Chip::Connected(Signal::Medium)
    );
    assert_eq!(link_chip(Some(SessionKind::Local), 5, LinkKind::Wireless), Chip::Wireless);
    assert_eq!(link_chip(None, 0, LinkKind::Cable), Chip::Cable);
    assert_eq!(key_hints(Some("Shift")), "Esc — menu  ·  hold Shift — fast-forward");
    assert_eq!(key_hints(None), "Esc — menu");
    assert_eq!(card_body(TeleTab::Stats, false), CardBody::Stats);
    assert_eq!(card_body(TeleTab::Room, true), CardBody::Room);
    assert_eq!(card_body(TeleTab::Room, false), CardBody::RoomGone);
    assert_eq!((leave_label(true), leave_label(false)), ("Leave the room", "Disconnect"));
}

fn sample(skew: i32, lead: i32, depth: u32) -> MetricSample {
    MetricSample { tps: 60, fps_target: 0, skew, lead, depth, pings: vec![Some(5), None] }
}

#[test]
fn readings_have_their_tone() {
    let s = sample(-4, 9, 6);
    let r = skew_reading(Some(&s));
    assert_eq!((r.value.as_str(), r.tone), ("-4", Tone::Warn));
    assert_eq!(skew_reading(Some(&sample(0, 0, 0))).value, "+0");
    let r = lead_reading(Some(&s));
    assert_eq!((r.value.as_str(), r.tone), ("9", Tone::Warn));
    let r = depth_reading(Some(&s));
    assert_eq!((r.value.as_str(), r.tone), ("6", Tone::Bad));
    let r = skew_reading(None);
    assert_eq!((r.value.as_str(), r.tone.css()), ("—", "#565f89"));
    assert_eq!(latest_ping(Some(&s), 0), Some(5));
    assert_eq!(latest_ping(Some(&s), 1), None);
    assert_eq!(latest_ping(Some(&s), 7), None);
    assert_eq!(tone_for_abs(3, 3, 7), Tone::Good);
    assert_eq!(tone_for_abs(-8, 3, 7), Tone::Bad);
    assert_eq!(tone_for_ping(79_999), Tone::Good);
    assert_eq!(tone_for_ping(139_999), Tone::Warn);
    assert_eq!(tone_for_ping(140_000), Tone::Bad);
    assert_eq!(signal_icon(-3), Signal::High);
    assert_eq!(signal_icon(7), Signal::Medium);
    assert_eq!(signal_icon(i32::MIN), Signal::Low);
    assert_eq!(skew_tone_css(8), "#f7768e");
}

#[test]
fn seats_have_colours() {
    assert_eq!(seat_color(0), "#7dcfff");
    assert_eq!(seat_color(6), seat_color(1));
    let peers = vec![
        PeerStat { player: 0, nick: String::new(), rtt_micros: Some(3) },
        PeerStat { player: 1, nick: String::new(), rtt_micros: None },
        PeerStat { player: 2, nick: String::new(), rtt_micros: Some(9) },
    ];
    assert_eq!(worst_ping(&peers), 9);
    assert_eq!(worst_ping(&vec![]), 0);
    assert_eq!((clamp_delay(3), clamp_delay(30)), (3, 10));
}

#[test]
fn codes_are_copied_once() {
    let mut a = AutoCopy { copied: None };
    assert!(!a.due("X", false));
    assert!(a.due("X", true));
    assert!(!a.due("X", true));
    assert!(a.due("Y", true));
}
