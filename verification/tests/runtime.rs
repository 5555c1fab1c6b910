use gbaroll::config::{signaling_server, Config, DEFAULT_SIGNALING};
use gbaroll::effects::{effect_among, effect_for, Effect};
use gbaroll::input::{Capture, MappedKey};
use gbaroll::net::lobby::SessionBundle;
use gbaroll::net::protocol::BootBlob;
use gbaroll::runtime::{
    keeps_its_keys, unplug_reason, CaptureError, Card, Gate, KeyRoute, Overlays, PlugInError,
    PumpSource, Runtime, Session,
};
use gbaroll::session::netplay::{Captured, NetplayArgs};
use gbaroll::session::{
    Handoff, LinkKind, SessionDescriptor, SessionEnd, SessionKind, SharedSession, HISTORY_LEN,
};
use gbaroll::signaling::StartPlayer;

fn netplay() -> Session {
    Session {
        shared: SharedSession::new(0),
        descriptor: SessionDescriptor {
            kind: SessionKind::Netplay,
            local_player: 1,
            nicks: vec![],
            room_code: None,
            rom_crc32: Some(55),
            link: LinkKind::Cable,
        },
    }
}

fn solo(save: Option<Vec<u8>>) -> Runtime {
    let mut rt = Runtime::new();
    rt.has_storage = true;
    let (write, local) = rt.start_local(None, vec![1, 2, 3], save, LinkKind::Cable, 9);
    assert!(write.is_none());
    assert_eq!(local.machine.rom, vec![1, 2, 3]);
    assert_eq!(local.machine.rtc_unix_micros, 9);
    rt.local_booted(
        Session { shared: local.shared, descriptor: local.descriptor },
        Some("a.sav".to_string()),
        1_000,
    );
    rt
}

#[test]
fn solo_sessions_start() {
    let rt = solo(None);
    let d = &rt.session.as_ref().unwrap().descriptor;
    // The CRC32 of three bytes.
    assert_eq!(d.rom_crc32, Some(0x55bc_801d));
    assert_eq!(rt.epoch, 1);
    assert_eq!(rt.session_name(), "local");
    assert!(rt.in_session());
    assert_eq!(Runtime::new().session_name(), "none");
}

#[test]
fn starting_closes_what_ran() {
    let mut rt = solo(None);
    let (write, _) = rt.start_local(Some(vec![6]), vec![1], Some(vec![2]), LinkKind::Cable, 9);
    assert_eq!(write.unwrap().bytes, vec![6]);
    assert!(rt.session.is_none());
    assert_eq!((rt.save_file.clone(), rt.epoch), (None, 2));
    // The CRC32 of one byte.
    assert_eq!(rt.saved_crc, Some(0x3c0c_8ea1));
}

fn bundle(boots: Vec<Vec<u8>>) -> NetplayArgs {
    let player = |nick: &str, rom_crc32| StartPlayer { nick: nick.to_string(), rom_crc32 };
    NetplayArgs {
        bundle: SessionBundle {
            room_code: "AB2C3D".to_string(),
            players: vec![player("a", 7), player("b", 8)],
            local_player: 1,
            boots,
        },
        roms: vec![vec![1], vec![2]],
        present_delay: 3,
        link: LinkKind::Cable,
    }
}

#[test]
fn the_cable_plugs_into_a_solo_machine() {
    let captured = || Some(Captured { state: vec![3], save: None, adapter: None });
    let boot = || Runtime::boot_payload(captured(), 66).unwrap().unwrap();
    let rt = solo(None);
    let s = rt.plug_in(bundle(vec![boot(), boot()]), &vec![0], 5).unwrap();
    assert_eq!((s.driver.clock_unix_micros, s.driver.peers[0].player), (66, 0));
    assert_eq!((s.shared.present_delay, s.shared.view_player), (3, 1));
    assert_eq!(s.sides[1].state, vec![3]);
    assert_eq!(s.descriptor.nicks, vec!["a".to_string(), "b".to_string()]);
    let bad = rt.plug_in(bundle(vec![boot(), vec![1]]), &vec![0], 5).unwrap_err();
    assert_eq!((bad, bad.message()), (PlugInError::BadCapture, None));
    let gone = Runtime::new().plug_in(bundle(vec![boot(), boot()]), &vec![0], 5).unwrap_err();
    assert_eq!(gone.message(), Some("the game ended before the cable plugged in"));
}

#[test]
fn sram_is_written_when_it_changed() {
    let mut rt = solo(Some(vec![7]));
    // What was loaded is no change.
    assert!(rt.persist_sram(Some(vec![7])).is_none());
    assert_eq!(rt.last_persisted_save, Some("a.sav".to_string()));
    let w = rt.persist_sram(Some(vec![8])).unwrap();
    assert_eq!((w.name.as_str(), w.bytes), ("a.sav", vec![8]));
    assert!(rt.persist_sram(Some(vec![8])).is_none());
    assert!(rt.persist_sram(None).is_none());
    let w = rt.persist_checked(vec![1], 5).unwrap();
    assert_eq!(w.bytes, vec![1]);
    assert!(rt.persist_checked(vec![1], 5).is_none());
    assert_eq!(rt.take_persisted_save(), Some("a.sav".to_string()));
    assert_eq!(rt.take_persisted_save(), None);
    rt.has_storage = false;
    assert!(rt.persist_sram(Some(vec![9])).is_none());
}

#[test]
fn closing_writes_back() {
    let mut rt = solo(None);
    let w = rt.close_session(Some(vec![4])).unwrap();
    assert_eq!(w.bytes, vec![4]);
    assert!(rt.session.is_none());
    assert_eq!(rt.save_file, None);
    assert_eq!(rt.epoch, 2);
    assert_eq!(rt.take_persisted_save(), Some("a.sav".to_string()));
    assert!(rt.close_session(None).is_none());
    assert_eq!(rt.epoch, 2);
}

#[test]
fn machines_freeze_for_their_capture() {
    let mut rt = Runtime::new();
    assert_eq!(rt.freeze(), Err(CaptureError::GameEnded));
    assert_eq!(CaptureError::GameEnded.message(), "the game ended");
    rt.adopt_session(netplay());
    assert_eq!(rt.freeze(), Err(CaptureError::NotSolo));
    assert_eq!(CaptureError::NotSolo.message(), "this session's machine can't be captured");
    let mut rt = solo(None);
    assert_eq!(rt.freeze(), Ok(()));
    assert!(rt.session.as_ref().unwrap().shared.paused);
    let captured = Captured { state: vec![3, 4], save: Some(vec![5]), adapter: None };
    let b = Runtime::boot_payload(Some(captured), 66).unwrap().unwrap();
    assert_eq!(
        BootBlob::decode(&b),
        Some(BootBlob { state: vec![3, 4], save: Some(vec![5]), clock_unix_micros: 66 })
    );
    let gone = Runtime::boot_payload(None, 66).unwrap_err();
    assert_eq!(gone.message(), "machine unavailable");
}

#[test]
fn unplugs_continue_solo() {
    let mut rt = solo(None);
    let mut s = netplay();
    s.shared.finish(SessionEnd::PeerQuit { player: 0 });
    s.shared.handoff = Some(Handoff {
        rom: vec![1],
        state: vec![2],
        save: Some(vec![3]),
        rtc_unix_micros: 4,
        link: LinkKind::Cable,
        adapter: None,
    });
    rt.adopt_session(s);
    let plan = rt.session_over().unwrap();
    assert_eq!(plan.end, SessionEnd::PeerQuit { player: 0 });
    assert_eq!(plan.write.unwrap().bytes, vec![3]);
    let c = plan.continuation.unwrap();
    assert_eq!(c.rom_crc32, 55);
    assert_eq!(c.reason, "Player 1 unplugged.");
    assert_eq!(c.handoff.state, vec![2]);
    let (local, notice) = Runtime::unplug_continue(c);
    assert_eq!((local.machine.state, notice.as_str()), (Some(vec![2]), "Player 1 unplugged."));
    assert_eq!(local.descriptor.rom_crc32, Some(55));
    assert!(rt.close_over(plan.end, None).is_none());
    assert_eq!(rt.last_end, Some(SessionEnd::PeerQuit { player: 0 }));
    assert!(rt.in_session());
    rt.dismiss_end();
    assert!(!rt.in_session());
}

#[test]
fn other_ends_are_the_end() {
    let mut rt = Runtime::new();
    assert!(rt.session_over().is_none());
    rt.adopt_session(netplay());
    let plan = rt.session_over().unwrap();
    assert_eq!(plan.end, SessionEnd::LocalQuit);
    assert!(plan.continuation.is_none());
    let mut s = netplay();
    s.shared.finish(SessionEnd::Error("x".to_string()));
    rt.adopt_session(s);
    assert_eq!(rt.session_over().unwrap().end, SessionEnd::Error("x".to_string()));
}

#[test]
fn unplugs_have_their_reason() {
    assert_eq!(unplug_reason(&SessionEnd::Unplugged), "Unplugged.");
    assert_eq!(
        unplug_reason(&SessionEnd::PeerDisconnected { player: 2 }),
        "Connection to player 3 lost."
    );
    assert_eq!(
        unplug_reason(&SessionEnd::Desync { tick: 12 }),
        "Desync at tick 12 — cable unplugged."
    );
}

#[test]
fn bindings_are_captured_on_edges() {
    let mut rt = Runtime::new();
    // Held before the capture began: never bound.
    assert_eq!(rt.scan_capture(true, vec![4]), None);
    assert_eq!(rt.scan_capture(true, vec![4]), None);
    assert_eq!(rt.scan_capture(true, vec![4, 9, 7]), Some(9));
    assert_eq!(rt.scan_capture(false, vec![1]), None);
    assert!(rt.capture_prev.is_none());
}

#[test]
fn input_reaches_the_session() {
    let mut rt = solo(None);
    rt.touch_keys = 2;
    rt.take_input(1, true);
    let s = &rt.session.as_ref().unwrap().shared;
    assert_eq!((s.joyflags, s.speed), (3, 300));
    rt.take_input(1, false);
    assert_eq!(rt.session.as_ref().unwrap().shared.speed, 100);
    rt.adopt_session(netplay());
    rt.take_input(8, true);
    let s = &rt.session.as_ref().unwrap().shared;
    assert_eq!((s.joyflags, s.speed), (10, 100));
}

#[test]
fn hidden_solo_sessions_idle() {
    let mut rt = Runtime::new();
    assert_eq!(rt.gate(false), Gate::Empty);
    let mut rt = solo(None);
    assert_eq!(rt.gate(true), Gate::Held);
    assert_eq!(rt.gate(false), Gate::Open { restart: false, pace: 0 });
    rt.session.as_mut().unwrap().shared.paused = true;
    assert_eq!(rt.gate(false), Gate::Held);
    rt.session.as_mut().unwrap().shared.resume();
    assert_eq!(rt.gate(false), Gate::Open { restart: true, pace: 0 });
    assert_eq!(rt.gate(false), Gate::Open { restart: false, pace: 0 });
    rt.adopt_session(netplay());
    assert_eq!(rt.gate(true), Gate::Open { restart: false, pace: 0 });
    rt.unplug();
    rt.set_present_delay(5);
    let s = &rt.session.as_ref().unwrap().shared;
    assert!(s.unplug);
    assert_eq!(s.present_delay, 5);
}

#[test]
fn autosaves_come_every_minute() {
    let mut rt = solo(None);
    assert!(!rt.autosave_due(61_000));
    assert!(rt.autosave_due(61_001));
    assert!(!rt.autosave_due(61_002));
    rt.adopt_session(netplay());
    assert!(!rt.autosave_due(999_999));
}

#[test]
fn the_sample_ring_is_bounded() {
    let mut rt = Runtime::new();
    rt.adopt_session(netplay());
    for i in 0..200 {
        rt.session.as_mut().unwrap().shared.stats.skew = i;
        rt.take_sample(true);
        rt.take_sample(false);
    }
    assert_eq!(rt.metric_history.len(), HISTORY_LEN);
    assert_eq!(rt.metric_history[0].skew, 20);
    let mut rt = solo(None);
    rt.take_sample(true);
    assert!(rt.metric_history.is_empty());
}

#[test]
fn frames_are_presented_once() {
    let mut rt = solo(None);
    assert!(!rt.present_due(PumpSource::Raf, true));
    rt.session.as_mut().unwrap().shared.publish_video(&[1]);
    assert!(!rt.present_due(PumpSource::Audio, true));
    assert!(!rt.present_due(PumpSource::Raf, false));
    assert!(rt.present_due(PumpSource::Raf, true));
    assert!(!rt.present_due(PumpSource::Raf, true));
    rt.notify(PumpSource::Audio, true);
    rt.notify(PumpSource::Raf, false);
    assert_eq!(rt.frame_rev, 0);
    rt.notify(PumpSource::Raf, true);
    assert_eq!(rt.frame_rev, 1);
}

fn overlays() -> Overlays {
    Overlays { menu_open: false, panel_open: false }
}

#[test]
fn escape_drives_the_overlays() {
    let mut o = overlays();
    let mut c = Capture::new();
    o.panel_open = true;
    assert_eq!(o.key(&mut c, "Escape", true, true), KeyRoute::Swallow);
    assert!(!o.panel_open && !o.menu_open);
    o.key(&mut c, "Escape", true, true);
    assert!(o.menu_open);
    o.key(&mut c, "Escape", true, true);
    assert!(!o.menu_open);
    assert_eq!(o.key(&mut c, "Escape", false, true), KeyRoute::Pass);
    assert_eq!(o.key(&mut c, "Escape", true, false), KeyRoute::Pass);
    assert_eq!(o.key(&mut c, "KeyZ", true, true), KeyRoute::Game);
}

#[test]
fn captures_take_the_next_key() {
    let mut o = overlays();
    let mut c = Capture::new();
    c.arm(MappedKey::A);
    assert_eq!(o.key(&mut c, "KeyZ", false, true), KeyRoute::Game);
    assert_eq!(o.key(&mut c, "KeyZ", true, true), KeyRoute::Swallow);
    assert_eq!(c.captured, Some((MappedKey::A, "KeyZ".to_string())));
    assert_eq!(c.target, None);
    c.arm(MappedKey::B);
    assert_eq!(o.key(&mut c, "Escape", true, true), KeyRoute::Swallow);
    assert_eq!((c.target, c.captured), (None, None));
    assert_eq!(o, overlays());
}

#[test]
fn a_pump_begins_and_ends() {
    let mut rt = solo(None);
    rt.capture_prev = Some(vec![1]);
    let (edge, gate) = rt.pump_start(true, vec![1, 2], 4, true, false);
    assert_eq!(edge, Some(2));
    assert_eq!(gate, Gate::Open { restart: false, pace: 0 });
    let s = &rt.session.as_ref().unwrap().shared;
    assert_eq!((s.joyflags, s.speed), (4, 300));
    rt.session.as_mut().unwrap().shared.publish_video(&[1]);
    assert!(rt.pump_end(PumpSource::Raf, true, true));
    assert!(!rt.pump_end(PumpSource::Raf, true, false));
    assert_eq!(rt.frame_rev, 1);
    assert_eq!(rt.pump_start(false, vec![], 0, false, true), (None, Gate::Held));
    assert!(rt.capture_prev.is_none());
}

#[test]
fn one_card_is_down_at_a_time() {
    let mut o = overlays();
    assert_eq!(o.card(true), Card::Nothing);
    o.toggle_panel();
    assert_eq!((o.card(true), o.card(false)), (Card::Telemetry, Card::Cable));
    o.toggle_menu();
    assert_eq!(o.card(true), Card::Menu);
    assert!(!o.panel_open);
    o.toggle_menu();
    o.toggle_menu();
    o.dismiss();
    assert_eq!(o.card(false), Card::Nothing);
    assert!(keeps_its_keys("INPUT") && keeps_its_keys("SELECT") && !keeps_its_keys("DIV"));
}

#[test]
fn the_signaling_server_can_be_overridden() {
    assert_eq!(signaling_server(None), DEFAULT_SIGNALING);
    assert_eq!(signaling_server(Some(String::new())), DEFAULT_SIGNALING);
    assert_eq!(signaling_server(Some("ws://x".to_string())), "ws://x");
    let c = Config::load(None);
    assert_eq!(c.nick, "player");
    assert_eq!(f32::from_bits(c.volume), 1.0);
    assert_eq!(c.mapping.slot(MappedKey::A).inputs, vec!["KeyZ"]);
    assert_eq!(c.mapping.slot(MappedKey::SpeedUp).inputs, vec!["ShiftLeft"]);
    let mut kept = Config::default();
    kept.mapping.bind(MappedKey::A, "KeyQ".to_string());
    kept.present_delay = 7;
    let loaded = Config::load(Some(kept));
    assert_eq!(loaded.present_delay, 7);
    assert_eq!(loaded.mapping.slot(MappedKey::A).inputs, vec!["KeyZ", "KeyQ"]);
}

#[test]
fn unknown_effects_pass_through() {
    assert_eq!(effect_for("nope").scale, 1);
    assert_eq!(effect_for("").name, "—");
    let hq = Effect { id: "hq", name: "HQ", scale: 3 };
    assert_eq!(effect_among(&vec![hq], "hq").scale, 3);
    assert_eq!(effect_among(&vec![hq], "x").scale, 1);
}

#[test]
fn the_menu_closes_with_a_swap() {
    let mut rt = Runtime::new();
    rt.overlays.toggle_menu();
    rt.plugged_in(netplay());
    assert!(!rt.overlays.menu_open);
    rt.overlays.toggle_menu();
    rt.close_session(None);
    assert!(!rt.overlays.menu_open);
    rt.overlays.toggle_panel();
    rt.close_session(None);
    assert!(rt.overlays.panel_open);
}
