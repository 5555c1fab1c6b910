use gbaroll::net::lobby::SessionBundle;
use gbaroll::net::protocol::{BootBlob, Input, Meta, PeerControl};
use gbaroll::session::local::{self, LocalArgs, LocalDriver};
use gbaroll::session::netplay::tick::{Stage, TickAction, TickEvent};
use gbaroll::session::netplay::{
    on_closed, on_control, start, Captured, Delivery, GoneReason, NetEvent, NetplayArgs,
    NetplaySession, PeerCtx, RemoteInput, TickReport, MAX_RTT_SAMPLES,
};
use gbaroll::session::{Handoff, LinkKind, SessionEnd, SessionKind, SharedSession};
use gbaroll::signaling::StartPlayer;

fn blob(clock: u64) -> Vec<u8> {
    BootBlob { state: vec![clock as u8], save: Some(vec![1]), clock_unix_micros: clock }
        .encode()
        .unwrap()
}

fn session() -> NetplaySession {
    let players =
        (0..3).map(|i| StartPlayer { nick: format!("p{i}"), rom_crc32: 100 + i }).collect();
    start(
        NetplayArgs {
            bundle: SessionBundle {
                room_code: "AB2C3D".to_string(),
                players,
                local_player: 1,
                boots: vec![blob(7), blob(8), blob(9)],
            },
            roms: vec![vec![1], vec![2], vec![3]],
            present_delay: 2,
            link: LinkKind::Wireless,
        },
        &vec![0, 2],
        1_000,
    )
    .unwrap()
}

#[test]
fn a_session_is_set_up() {
    let s = session();
    assert_eq!(s.driver.clock_unix_micros, 7);
    assert_eq!(s.driver.local_rom, vec![2]);
    assert_eq!(s.driver.peers.len(), 2);
    assert_eq!(s.driver.peers[1].player, 2);
    assert_eq!(s.driver.peers[1].nick, "p2");
    assert_eq!(s.descriptor.kind, SessionKind::Netplay);
    assert_eq!(s.descriptor.rom_crc32, Some(101));
    assert_eq!(s.descriptor.room_code, Some("AB2C3D".to_string()));
    assert_eq!(s.descriptor.nicks, vec!["p0", "p1", "p2"]);
    assert_eq!(s.shared.view_player, 1);
    assert_eq!(s.shared.present_delay, 2);
    assert_eq!(s.sides[2].rom, vec![3]);
    assert_eq!(s.sides[2].state, vec![9]);
    assert_eq!(s.sides[2].save, Some(vec![1]));
}

#[test]
fn unreadable_captures_stop_the_start() {
    let args = NetplayArgs {
        bundle: SessionBundle {
            room_code: String::new(),
            players: vec![StartPlayer { nick: String::new(), rom_crc32: 0 }],
            local_player: 0,
            boots: vec![vec![1, 2, 3]],
        },
        roms: vec![vec![]],
        present_delay: 0,
        link: LinkKind::Cable,
    };
    assert!(start(args, &vec![], 0).is_none());
}

#[test]
fn ticks_drain_the_network() {
    let mut s = session();
    let events = vec![
        NetEvent::Input { player: 2, keys: 5, tick_advantage: -1 },
        NetEvent::Input { player: 0, keys: 6, tick_advantage: 2 },
    ];
    let o = s.driver.open_tick(&s.shared, 0, &events, 5_000);
    assert_eq!(o.end, None);
    assert_eq!(o.present_delay, Some(2));
    assert_eq!(
        o.inputs,
        vec![
            RemoteInput { player: 2, keys: 5, tick_advantage: -1 },
            RemoteInput { player: 0, keys: 6, tick_advantage: 2 },
        ]
    );
    assert_eq!(s.driver.peers[0].last_heard, 5_000);

    let events = vec![
        NetEvent::Input { player: 0, keys: 1, tick_advantage: 0 },
        NetEvent::Gone { player: 2, reason: GoneReason::FellBehind },
        NetEvent::Input { player: 0, keys: 2, tick_advantage: 0 },
    ];
    let o = s.driver.open_tick(&s.shared, 2, &events, 6_000);
    assert_eq!(o.present_delay, None);
    assert_eq!(o.inputs.len(), 1);
    assert_eq!(o.end, Some(SessionEnd::PeerDisconnected { player: 2 }));

    let gone = vec![NetEvent::Gone { player: 0, reason: GoneReason::Quit }];
    s.shared.unplug = true;
    assert_eq!(
        s.driver.open_tick(&s.shared, 2, &gone, 0).end,
        Some(SessionEnd::Unplugged)
    );
    s.shared.quit = true;
    assert_eq!(
        s.driver.open_tick(&s.shared, 2, &gone, 0).end,
        Some(SessionEnd::LocalQuit)
    );
    s.shared.quit = false;
    s.shared.unplug = false;
    assert_eq!(
        s.driver.open_tick(&s.shared, 2, &gone, 0).end,
        Some(SessionEnd::PeerQuit { player: 0 })
    );
}

#[test]
fn the_watchdog_blames_the_silent() {
    let mut s = session();
    assert_eq!(s.driver.watch(179, 9_000), None);
    s.driver.peers[0].last_heard = 8_000;
    assert_eq!(s.driver.watch(180, 9_000), Some(SessionEnd::PeerDisconnected { player: 2 }));
    s.driver.peers[0].last_heard = 500;
    assert_eq!(s.driver.watch(200, 9_000), Some(SessionEnd::PeerDisconnected { player: 0 }));
    // Of several, the last.
    s.driver.peers[0].last_heard = 1_000;
    assert_eq!(s.driver.watch(200, 9_000), Some(SessionEnd::PeerDisconnected { player: 2 }));
}

#[test]
fn ticks_are_sent_with_their_checkpoint() {
    let mut s = session();
    s.shared.joyflags = 0xffff_f401;
    assert_eq!(s.driver.keys(&s.shared), 1);
    let (input, meta) = s.driver.outgoing(0x1_0003, 4, None);
    assert_eq!(input, Input(3));
    assert_eq!(meta, Meta { tick_advantage: 4, checkpoint_tick: 0, checkpoint_digest: 0 });
    let (_, meta) = s.driver.outgoing(0, -4, Some((9, 8)));
    assert_eq!(meta, Meta { tick_advantage: -4, checkpoint_tick: 9, checkpoint_digest: 8 });
}

#[test]
fn round_trips_are_dated_by_acks() {
    let mut p = PeerCtx::new(3, "x".to_string(), 0);
    for seq in 0..300u32 {
        p.note_sent(seq, seq as u64 * 10);
    }
    assert_eq!(p.sent_times.len(), MAX_RTT_SAMPLES);
    assert!(p.sent);
    let meta = Meta { tick_advantage: 1, checkpoint_tick: 5, checkpoint_digest: 6 };
    let delivery = Delivery::Window { meta, entries: vec![Input(1), Input(2)] };
    let (events, going) = p.on_frame(100, 2_000, delivery);
    assert!(going);
    assert_eq!(p.rtt_micros, Some(2_000 - 990));
    assert_eq!(p.checkpoint, Some((5, 6)));
    assert_eq!(
        events,
        vec![
            NetEvent::Input { player: 3, keys: 1, tick_advantage: 1 },
            NetEvent::Input { player: 3, keys: 2, tick_advantage: 1 },
        ]
    );
    assert_eq!(p.sent_times[0].0, 100);
    // Nothing newly confirmed, no checkpoint: both stay.
    let quiet = Delivery::Window { meta: Meta::default(), entries: vec![] };
    p.on_frame(100, 9_000, quiet);
    assert_eq!(p.rtt_micros, Some(1_010));
    assert_eq!(p.checkpoint, Some((5, 6)));
    let (events, going) = p.on_frame(100, 9_000, Delivery::HorizonExceeded);
    assert!(!going);
    assert_eq!(events, vec![NetEvent::Gone { player: 3, reason: GoneReason::FellBehind }]);
}

#[test]
fn heartbeats_fill_the_silence() {
    let mut p = PeerCtx::new(0, String::new(), 0);
    assert!(p.heartbeat());
    p.note_sent(1, 1);
    assert!(!p.heartbeat());
    assert!(p.heartbeat());
}

#[test]
fn control_messages_end_it() {
    let quit = PeerControl::Quit.encode().unwrap();
    assert_eq!(
        on_control(2, &quit),
        Some(NetEvent::Gone { player: 2, reason: GoneReason::Quit })
    );
    assert_eq!(on_control(2, &PeerControl::Boot { len: 1 }.encode().unwrap()), None);
    assert_eq!(on_control(2, &[7]), None);
    assert_eq!(on_closed(1), NetEvent::Gone { player: 1, reason: GoneReason::Disconnected });
}

#[test]
fn desyncs_end_it() {
    let mut s = session();
    s.driver.peers[0].checkpoint = Some((10, 1));
    s.driver.peers[1].checkpoint = Some((20, 2));
    assert_eq!(
        s.driver.check_digests(&vec![Some(1), Some(3)]),
        Some(SessionEnd::Desync { tick: 20 })
    );
    s.driver.peers[0].checkpoint = Some((10, 1));
    s.driver.peers[1].checkpoint = Some((20, 2));
    assert_eq!(s.driver.check_digests(&vec![None, Some(2)]), None);
    assert_eq!(s.driver.peers[1].checkpoint, None);
}

#[test]
fn ticks_are_counted_over_a_second() {
    let mut s = session();
    for i in 0..100u64 {
        s.driver.note_tick(i * 20_000);
    }
    // The last second holds its first and its last instant.
    assert_eq!(s.driver.note_tick(2_000_000), 51);
    let report = TickReport {
        queue_len: 3,
        skew: -1,
        rolled_back: 2,
        confirmed: 40,
        frontier: 44,
        slices_peak: 0,
    };
    s.driver.close_tick(&mut s.shared, Some(vec![9]), 77, report, 2_000_001);
    assert_eq!(s.shared.vbuf, vec![9]);
    assert_eq!(s.shared.fps_target, 77);
    assert_eq!(s.shared.stats.queue_len, 3);
    assert_eq!(s.shared.stats.tps, 51);
    assert_eq!(s.shared.stats.peers[0].nick, "p0");
}

#[test]
fn unplugging_leaves_a_handoff() {
    let mut s = session();
    let captured = Captured { state: vec![5], save: None, adapter: Some(vec![6]) };
    let announce = s.driver.finish(&mut s.shared, SessionEnd::Unplugged, Some(captured));
    assert_eq!(announce, Some(PeerControl::Quit.encode().unwrap()));
    assert_eq!(s.shared.end, Some(SessionEnd::Unplugged));
    let h = s.shared.handoff.take().unwrap();
    assert_eq!((h.rom.clone(), h.state.clone(), h.rtc_unix_micros), (vec![2], vec![5], 7));
    assert_eq!(h.link, LinkKind::Wireless);
    assert!(s.driver.stop);
    let solo = local::resume(h, 101);
    assert_eq!(solo.machine.state, Some(vec![5]));
    assert_eq!(solo.machine.adapter, Some(vec![6]));
    assert_eq!(solo.descriptor.kind, SessionKind::Local);
    assert_eq!(solo.descriptor.nicks, vec!["Player 1"]);

    let mut s = session();
    let end = SessionEnd::Desync { tick: 1 };
    assert_eq!(s.driver.finish(&mut s.shared, end, None), None);
    assert!(s.shared.handoff.is_none());
    assert_eq!(s.driver.local_rom, vec![2]);
    let captured = Captured { state: vec![5], save: None, adapter: None };
    let mut s = session();
    let announce = s.driver.finish(&mut s.shared, SessionEnd::LocalQuit, Some(captured));
    assert!(announce.is_some());
    assert!(s.shared.handoff.is_none());
}

#[test]
fn solo_ticks() {
    let booted = local::start(LocalArgs {
        rom: vec![1],
        rom_crc32: 4,
        save: None,
        rtc_unix_micros: 3,
        link: LinkKind::Cable,
    });
    assert_eq!(booted.machine.rtc_unix_micros, 3);
    assert_eq!(booted.machine.state, None);
    let mut shared = booted.shared;
    let d = LocalDriver;
    shared.joyflags = 0x801;
    assert_eq!(d.begin_tick(&mut shared), Some(1));
    shared.speed = 10;
    assert_eq!(d.speed(&shared), 25);
    shared.speed = 300;
    assert_eq!(d.speed(&shared), 300);
    assert!(d.end_tick(&mut shared, Ok(Some(vec![1, 2])), 9));
    assert_eq!(shared.stats.frontier, 1);
    assert_eq!(shared.vbuf, vec![1, 2]);
    assert!(d.end_tick(&mut shared, Ok(None), 9));
    assert_eq!(shared.vbuf_rev, 1);
    assert!(!d.end_tick(&mut shared, Err("oops".to_string()), 9));
    assert_eq!(shared.end, Some(SessionEnd::Error("emulation error: oops".to_string())));
    let mut shared = SharedSession::new(0);
    shared.quit = true;
    assert_eq!(d.begin_tick(&mut shared), None);
    assert_eq!(shared.end, Some(SessionEnd::LocalQuit));
}

#[test]
fn handoffs_keep_the_clock() {
    let h = Handoff {
        rom: vec![1],
        state: vec![2],
        save: Some(vec![3]),
        rtc_unix_micros: 44,
        link: LinkKind::Wireless,
        adapter: None,
    };
    let s = local::resume(h, 9);
    assert_eq!(s.machine.rtc_unix_micros, 44);
    assert_eq!(s.machine.save, Some(vec![3]));
    assert_eq!(s.descriptor.link, LinkKind::Wireless);
}

fn advanced() -> TickEvent {
    TickEvent::Advanced {
        keys: 0x3,
        tick_advantage: 2,
        checkpoint: Some((60, 0xabcd)),
        rolled_back: 1,
        confirmed: 50,
        frontier: 61,
        slices_peak: 4,
    }
}

/// A tick, up to the point where the digests are compared.
fn tick_to_comparing(s: &mut NetplaySession) {
    let (d, sh) = (&mut s.driver, &mut s.shared);
    sh.joyflags = 0xffff_0003;
    let events = vec![NetEvent::Input { player: 0, keys: 9, tick_advantage: 1 }];
    match d.tick(sh, TickEvent::Begin { present_delay: 2, events }, 5_000) {
        TickAction::Feed { present_delay, inputs } => {
            assert_eq!(present_delay, None);
            assert_eq!(inputs, vec![RemoteInput { player: 0, keys: 9, tick_advantage: 1 }]);
        },
        other => panic!("{other:?}"),
    }
    // Only what the tick waits for moves it.
    assert!(matches!(d.tick(sh, advanced(), 5_000), TickAction::Ignored));
    let a = d.tick(sh, TickEvent::Fed { queue_len: 3, skew: -2 }, 5_000);
    assert!(matches!(a, TickAction::Advance { keys: 0x3 }), "{a:?}");
    match d.tick(sh, advanced(), 5_000) {
        TickAction::Broadcast { input, meta } => {
            assert_eq!(input, Input(0x3));
            assert_eq!(
                meta,
                Meta { tick_advantage: 2, checkpoint_tick: 60, checkpoint_digest: 0xabcd }
            );
        },
        other => panic!("{other:?}"),
    }
    d.peers[1].checkpoint = Some((60, 0xabcd));
    match d.tick(sh, TickEvent::Sent(vec![61, 61]), 5_000) {
        TickAction::Compare { ticks } => assert_eq!(ticks, vec![None, Some(60)]),
        other => panic!("{other:?}"),
    }
    assert!(d.peers.iter().all(|p| p.sent && p.sent_times.back() == Some(&(61, 5_000))));
}

#[test]
fn a_whole_tick() {
    let mut s = session();
    tick_to_comparing(&mut s);
    let (d, sh) = (&mut s.driver, &mut s.shared);
    let a = d.tick(sh, TickEvent::Digests(vec![None, Some(0xabcd)]), 5_000);
    assert!(matches!(a, TickAction::Present { skew: -2 }), "{a:?}");
    assert_eq!(d.peers[1].checkpoint, None);
    let presented = TickEvent::Presented { frame: Some(vec![7]), pace: 0x426f_0000 };
    assert!(matches!(d.tick(sh, presented, 5_000), TickAction::Done));
    assert!(matches!(d.stage, Stage::Idle));
    assert_eq!(sh.vbuf, vec![7]);
    assert_eq!(sh.stats.queue_len, 3);
    assert_eq!(sh.stats.frontier, 61);
    assert_eq!(sh.stats.tps, 1);
    assert_eq!(sh.fps_target, 0x426f_0000);
    assert_eq!(sh.end, None);
}

#[test]
fn a_desync_ends_a_tick() {
    let mut s = session();
    tick_to_comparing(&mut s);
    let (d, sh) = (&mut s.driver, &mut s.shared);
    let a = d.tick(sh, TickEvent::Digests(vec![None, Some(1)]), 5_000);
    assert!(matches!(a, TickAction::Capture), "{a:?}");
    assert_eq!(sh.end, None);
    let machine = Captured { state: vec![4], save: None, adapter: None };
    match d.tick(sh, TickEvent::Machine(Some(machine)), 5_000) {
        TickAction::Over { announce } => assert_eq!(announce, None),
        other => panic!("{other:?}"),
    }
    assert_eq!(sh.end, Some(SessionEnd::Desync { tick: 60 }));
    assert_eq!(sh.handoff.as_ref().unwrap().state, vec![4]);
    let begin = TickEvent::Begin { present_delay: 2, events: vec![] };
    assert!(matches!(d.tick(sh, begin, 6_000), TickAction::Ignored));
}

#[test]
fn an_engine_error_ends_a_tick() {
    let mut s = session();
    let (d, sh) = (&mut s.driver, &mut s.shared);
    d.tick(sh, TickEvent::Begin { present_delay: 2, events: vec![] }, 0);
    d.tick(sh, TickEvent::Fed { queue_len: 0, skew: 0 }, 0);
    let a = d.tick(sh, TickEvent::Failed("crashed".to_string()), 0);
    assert!(matches!(a, TickAction::Over { announce: None }), "{a:?}");
    assert_eq!(sh.end, Some(SessionEnd::Error("emulation error: crashed".to_string())));
}

#[test]
fn quitting_announces_itself() {
    let mut s = session();
    let (d, sh) = (&mut s.driver, &mut s.shared);
    sh.quit = true;
    match d.tick(sh, TickEvent::Begin { present_delay: 2, events: vec![] }, 0) {
        TickAction::Over { announce } => assert_eq!(announce, PeerControl::Quit.encode()),
        other => panic!("{other:?}"),
    }
    assert_eq!(sh.end, Some(SessionEnd::LocalQuit));
    assert!(d.stop);
}
