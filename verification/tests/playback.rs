use gbaroll::net::protocol::BootBlob;
use gbaroll::replay::{Metadata, PlayerMeta, Replay};
use gbaroll::session::playback::drive::{
    boot_failed, captures_due, keep_capture, prefetch_next, publish_snapshot, shown_frame, start,
    BootConfig, BootError, BootPlan, Drive, DriveAction, Playback, PlaybackArgs, PrefetchAction,
};
use gbaroll::session::playback::engine::{nearest_snapshot, RewindRing, SnapshotStore};
use gbaroll::session::playback::seek::{
    plan_seek, SeekAction, SeekController, SeekEvent, SeekStart, SeekWorker,
};
use gbaroll::session::{SessionEnd, SharedSession};

fn store(ticks: &[u32]) -> SnapshotStore<u32> {
    let mut s = SnapshotStore::new(100_000, 2);
    for t in ticks {
        s.push(*t, *t * 10);
    }
    s
}

fn ring(ticks: &[u32]) -> RewindRing<u32> {
    let mut r = RewindRing::new(2, 60);
    for t in ticks {
        r.insert(*t, *t * 10);
    }
    r
}

#[test]
fn snapshots_are_found() {
    let s = store(&[0, 300, 100]);
    assert_eq!(s.best_at_or_before(299), Some(&(100, 1000)));
    assert_eq!(s.best_at_or_before(300), Some(&(300, 3000)));
    assert_eq!(s.best_in_range(100, 299), None);
    assert_eq!(s.best_in_range(99, 299), Some(&(100, 1000)));
    // Reversed bounds hold nothing.
    assert_eq!(s.best_in_range(299, 99), None);
    assert_eq!(s.best_in_range(100, 100), None);
    assert_eq!(s.nearest(190), Some(&(100, 1000)));
    assert_eq!(s.nearest(250), Some(&(300, 3000)));
    assert_eq!(SnapshotStore::<u32>::new(10, 2).nearest(3), None);
}

#[test]
fn a_keyframe_covers_its_interval() {
    let mut s = SnapshotStore::new(240, 2);
    assert!(s.snapshot_needed(0));
    s.push(0, 0);
    for tick in 0..60u32 {
        assert!(!s.snapshot_needed(tick), "{tick}");
    }
    assert!(s.snapshot_needed(60));
    s.push(60, 0);
    assert!(!s.snapshot_needed(119));
    assert!(s.snapshot_needed(120));
}

#[test]
fn rewind_windows_are_bounded() {
    let mut r = ring(&[]);
    for t in 0..5_000u32 {
        r.insert(t, t);
    }
    assert!(r.entries.len() <= 192);
    assert_eq!(r.best_at_or_before(4_999), Some(&(4_999, 4_999)));
    assert_eq!(nearest_snapshot(&store(&[0]), &r, 4_990).map(|e| e.0), Some(4_990));
}

#[test]
fn seeks_start_from_the_best_place() {
    assert_eq!(plan_seek(50, 80, &ring(&[40]), &store(&[0])), SeekStart::Ring(40));
    assert_eq!(plan_seek(50, 80, &ring(&[]), &store(&[0, 45])), SeekStart::Store(45));
    assert_eq!(plan_seek(50, 80, &ring(&[60]), &store(&[60])), SeekStart::Boot);
    assert_eq!(plan_seek(90, 80, &ring(&[]), &store(&[0])), SeekStart::Here);
    assert_eq!(plan_seek(90, 80, &ring(&[]), &store(&[85])), SeekStart::Store(85));
}

#[test]
fn a_chase_lands_on_its_target() {
    let mut ctrl = SeekController::new();
    let mut worker = SeekWorker::new();
    let mut r = ring(&[]);
    let s = store(&[0, 30]);
    assert_eq!(worker.next(&mut ctrl, SeekEvent::Polled, Some(5), &mut r, &s), SeekAction::Wait);
    ctrl.request(32, true);
    assert_eq!(ctrl.pending_target(), Some(32));
    assert_eq!(
        worker.next(&mut ctrl, SeekEvent::Polled, Some(5), &mut r, &s),
        SeekAction::Load(SeekStart::Store(30))
    );
    assert_eq!(
        worker.next(&mut ctrl, SeekEvent::Loaded, Some(30), &mut r, &s),
        SeekAction::Step
    );
    let stepped = SeekEvent::Stepped { captured: Some(31) };
    assert_eq!(worker.next(&mut ctrl, stepped, Some(31), &mut r, &s), SeekAction::Step);
    let stepped = SeekEvent::Stepped { captured: Some(32) };
    assert_eq!(
        worker.next(&mut ctrl, stepped, Some(32), &mut r, &s),
        SeekAction::Finish { purge: true, publish: Some(32), resume: true }
    );
    ctrl.shutdown();
    assert_eq!(worker.next(&mut ctrl, SeekEvent::Polled, Some(5), &mut r, &s), SeekAction::Exit);
}

#[test]
fn the_newest_request_wins() {
    let mut ctrl = SeekController::new();
    let mut worker = SeekWorker::new();
    let mut r = ring(&[]);
    let s = store(&[]);
    ctrl.request(10, false);
    assert_eq!(worker.next(&mut ctrl, SeekEvent::Polled, Some(5), &mut r, &s), SeekAction::Step);
    ctrl.request(7, false);
    let stepped = SeekEvent::Stepped { captured: Some(6) };
    assert_eq!(worker.next(&mut ctrl, stepped, Some(6), &mut r, &s), SeekAction::Step);
    let stepped = SeekEvent::Stepped { captured: Some(7) };
    assert_eq!(
        worker.next(&mut ctrl, stepped, Some(7), &mut r, &s),
        SeekAction::Finish { purge: true, publish: Some(7), resume: false }
    );
}

fn replay(boots: Vec<Option<Vec<u8>>>) -> Replay {
    Replay {
        metadata: Metadata {
            local_player: 9,
            started_at_unix_micros: None,
            rtc_unix_micros: Some(5),
            players: boots
                .into_iter()
                .map(|boot| PlayerMeta {
                    nick: "n".to_string(),
                    rom_crc32: 0,
                    rom_title: String::new(),
                    rom_code: String::new(),
                    boot,
                })
                .collect(),
        },
        inputs: vec![vec![1, 2], vec![3, 4]],
        is_complete: true,
    }
}

#[test]
fn playback_boots_from_its_captures() {
    let blob = BootBlob { state: vec![7], save: None, clock_unix_micros: 1 };
    let b = blob.encode().unwrap();
    let setup = start::<u32>(PlaybackArgs {
        replay: replay(vec![Some(b.clone()), Some(b.clone())]),
        roms: vec![vec![1], vec![2]],
    });
    assert_eq!((setup.shared.view_player, setup.local_player), (1, 9));
    assert_eq!((setup.total_ticks, setup.snapshots.interval), (2, 60));
    assert_eq!(setup.rewind.max_entries, 192);
    assert_eq!(setup.seek.pending_target(), None);
    assert_eq!(setup.boot.rtc(), 5);
    assert_eq!(setup.boot.num_players(), 2);
    match setup.boot.boot().unwrap() {
        BootPlan::Captured(sides) => {
            assert_eq!(sides[1].rom, vec![2]);
            assert_eq!(sides[1].state, vec![7]);
        },
        other => panic!("{other:?}"),
    }
    let config = |boots| BootConfig { roms: vec![vec![1], vec![2]], boots, rtc_unix_micros: None };
    assert!(matches!(config(vec![None, None]).boot(), Ok(BootPlan::PowerOn(_))));
    assert!(matches!(config(vec![Some(b), None]).boot(), Err(BootError::MixedSides)));
    assert!(config(vec![Some(vec![1]), Some(vec![2])]).boot().is_err());
}

#[test]
fn playback_runs_its_rows() {
    let mut p = Playback::new(vec![vec![1], vec![2]]);
    assert_eq!((p.total(), p.cursor(), p.at_end()), (2, 0, false));
    assert_eq!(p.step(), Some(vec![1]));
    assert_eq!(p.step(), Some(vec![2]));
    assert!(p.at_end());
    assert_eq!(p.step(), None);
    p.load(1);
    assert_eq!(p.step(), Some(vec![2]));
}

#[test]
fn the_drive_loop_pauses_and_resumes() {
    let mut d = Drive::new();
    let mut shared = SharedSession::new(0);
    shared.speed = 1;
    assert_eq!(
        d.round(&mut shared, false),
        DriveAction::Run { reset_audio: false, reset_pacer: false, speed_percent: 25 }
    );
    shared.paused = true;
    assert_eq!(d.round(&mut shared, false), DriveAction::Hold { reset_audio: true });
    assert_eq!(d.round(&mut shared, false), DriveAction::Hold { reset_audio: false });
    shared.resume();
    assert_eq!(
        d.round(&mut shared, false),
        DriveAction::Run { reset_audio: true, reset_pacer: true, speed_percent: 25 }
    );
    assert_eq!(
        d.round(&mut shared, true),
        DriveAction::End { reset_audio: false, reset_pacer: false, speed_percent: 25 }
    );
    assert!(shared.paused);
    shared.quit = true;
    assert_eq!(d.round(&mut shared, true), DriveAction::Quit);
    assert_eq!(shared.end, Some(SessionEnd::LocalQuit));
}

#[test]
fn links_that_do_not_boot_end_the_session() {
    let mut shared = SharedSession::new(0);
    boot_failed(&mut shared, "no link");
    assert_eq!(shared.end, Some(SessionEnd::Error("failed to boot link: no link".to_string())));
}

#[test]
fn snapshots_are_published() {
    let mut shared = SharedSession::new(0);
    shared.view_player = 4;
    publish_snapshot(&mut shared, &vec![vec![1], vec![2]]);
    assert_eq!((shared.vbuf.clone(), shared.vbuf_rev), (vec![2], 1));
    publish_snapshot(&mut shared, &vec![vec![1], vec![]]);
    assert_eq!((shared.vbuf.clone(), shared.vbuf_rev), (vec![2], 1));
}

#[test]
fn chases_backfill_the_stores() {
    let mut s = store(&[0]);
    let mut r = ring(&[]);
    keep_capture(&mut s, &mut r, 2, 7, 8);
    assert_eq!(s.entries.len(), 1);
    assert_eq!(r.nearest(2), Some(&(2, 8)));
    keep_capture(&mut s, &mut r, 252, 7, 8);
    assert_eq!(s.nearest(252), Some(&(252, 7)));
}

#[test]
fn prefetching_keeps_keyframes() {
    let s = store(&[]);
    assert_eq!(prefetch_next(&s, 3, 3, false), PrefetchAction::Stop);
    assert_eq!(prefetch_next(&s, 0, 3, true), PrefetchAction::Stop);
    assert_eq!(
        prefetch_next(&s, 0, 3, false),
        PrefetchAction::Run { row: 0, tick: 1, keyframe: true }
    );
    let s = store(&[0]);
    assert_eq!(
        prefetch_next(&s, 1, 3, false),
        PrefetchAction::Run { row: 1, tick: 2, keyframe: false }
    );
    assert_eq!(captures_due(&s, 8, 4), (false, true));
    assert_eq!(captures_due(&s, 9, 4), (false, false));
    assert_eq!(shown_frame(5, &vec![vec![1], vec![]]), None);
    assert_eq!(shown_frame(0, &vec![vec![1], vec![]]), Some(0));
}

#[test]
fn resumes_can_be_withdrawn() {
    let mut ctrl = SeekController::new();
    assert!(!ctrl.resume_pending());
    ctrl.request(5, true);
    assert!(ctrl.resume_pending());
    ctrl.clear_resume();
    assert!(!ctrl.resume_pending());
    assert_eq!(ctrl.pending_target(), Some(5));
}
