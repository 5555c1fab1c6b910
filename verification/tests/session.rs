use gbaroll::audio::{ReplayAudioProducer, ReplayAudioQueue, ReplayStream, SinkDepth};
use gbaroll::session::{LinkKind, MetricSample, PeerStat, SessionEnd, SharedSession, Stats};

/// The machine's own pace.
fn expected_fps() -> u32 {
    (16777216.0f32 / 280896.0).to_bits()
}

fn playing_shared() -> SharedSession {
    let mut shared = SharedSession::new(0);
    shared.set_fps_target(expected_fps());
    shared
}

#[test]
fn resume_requests_one_pacer_reset() {
    let mut shared = SharedSession::new(0);
    shared.paused = true;

    shared.resume();

    assert!(!shared.paused);
    assert!(shared.take_pace_reset());
    assert!(!shared.take_pace_reset());
}

#[test]
fn replay_stream_primes_and_rebuffers_after_an_underrun() {
    let shared = playing_shared();
    let mut queue = ReplayAudioQueue::new(1_000);
    let generation = queue.generation();
    let mut stream = ReplayStream::new(&queue, &shared);

    assert!(queue.push(generation, &[[1, 1]; 49]));
    assert_eq!(stream.fill(&mut queue, &shared, 20).len(), 0);
    assert!(queue.push(generation, &[[2, 2]; 1]));
    assert_eq!(stream.fill(&mut queue, &shared, 40).len(), 40);
    assert_eq!(stream.fill(&mut queue, &shared, 20).len(), 10);
    assert!(queue.push(generation, &[[3, 3]; 39]));
    assert_eq!(stream.fill(&mut queue, &shared, 20).len(), 0);
    assert!(queue.push(generation, &[[4, 4]; 11]));
    assert_eq!(stream.fill(&mut queue, &shared, 20).len(), 20);
}

#[test]
fn replay_queue_rejects_audio_from_before_a_reset() {
    let mut queue = ReplayAudioQueue::new(1_000);
    let stale_generation = queue.generation();
    queue.reset();

    assert!(!queue.push(stale_generation, &[[1, 1]; 50]));
    assert!(queue.needs_prebuffer());
}

#[test]
fn replay_stream_resets_immediately_when_paused() {
    let mut shared = playing_shared();
    let mut queue = ReplayAudioQueue::new(1_000);
    let generation = queue.generation();
    assert!(queue.push(generation, &[[1, 1]; 50]));
    let mut stream = ReplayStream::new(&queue, &shared);
    assert_eq!(stream.fill(&mut queue, &shared, 10).len(), 10);

    shared.paused = true;
    assert_eq!(stream.fill(&mut queue, &shared, 10).len(), 0);
    assert!(queue.needs_prebuffer());
    assert!(!queue.push(generation, &[[2, 2]; 50]));
}

#[test]
fn frames_come_out_in_order() {
    let shared = playing_shared();
    let mut queue = ReplayAudioQueue::new(1_000);
    let generation = queue.generation();
    let mut stream = ReplayStream::new(&queue, &shared);
    let frames: Vec<[i16; 2]> = (0..60).map(|i| [i, -i]).collect();
    assert!(queue.push(generation, &frames));
    assert_eq!(stream.fill(&mut queue, &shared, 60), frames);
}

#[test]
fn a_new_setting_starts_the_sound_afresh() {
    let mut queue = ReplayAudioQueue::new(1_000);
    let mut producer = ReplayAudioProducer::new(&queue);
    let first = producer.publish(&mut queue, 0, 2, 100, 50);
    assert!(first.reset_resampler && first.discard);
    let again = producer.publish(&mut queue, 0, 2, 100, 50);
    assert!(!again.reset_resampler && !again.discard);
    assert_eq!(again.player, 0);
    // A player that is not there is the last one.
    let other = producer.publish(&mut queue, 9, 2, 100, 50);
    assert!(other.reset_resampler && other.discard);
    assert_eq!(producer.publish(&mut queue, 9, 2, 100, 50).player, 1);
}

#[test]
fn the_sink_is_topped_up() {
    let mut depth = SinkDepth::new();
    let n = depth.deficit();
    assert!(n > 0);
    depth.sent(n);
    assert_eq!(depth.deficit(), 0);
    depth.report(0);
    assert_eq!(depth.deficit(), n);
}

#[test]
fn the_first_end_stays() {
    let mut shared = playing_shared();
    assert!(shared.is_running());
    shared.finish(SessionEnd::Desync { tick: 7 });
    shared.finish(SessionEnd::LocalQuit);
    assert_eq!(shared.end, Some(SessionEnd::Desync { tick: 7 }));
    assert!(!shared.is_running());
}

#[test]
fn published_frames_are_counted() {
    let mut shared = SharedSession::new(0);
    assert_eq!(shared.vbuf.len(), 76_800);
    shared.publish_video(&[1, 2, 3]);
    shared.publish_video(&[4]);
    assert_eq!(shared.vbuf, vec![4]);
    assert_eq!(shared.vbuf_rev, 2);
}

#[test]
fn ends_that_leave_a_machine() {
    assert!(!SessionEnd::LocalQuit.unplugs());
    assert!(!SessionEnd::Error("x".to_string()).unplugs());
    assert!(SessionEnd::Unplugged.unplugs());
    assert!(SessionEnd::PeerQuit { player: 1 }.unplugs());
    assert!(SessionEnd::PeerDisconnected { player: 1 }.unplugs());
    assert!(SessionEnd::Desync { tick: 1 }.unplugs());
}

#[test]
fn peripherals_have_names() {
    assert_eq!(LinkKind::default(), LinkKind::Cable);
    assert_eq!(LinkKind::Cable.label(), "Link cable");
    assert_eq!(LinkKind::Wireless.label(), "Wireless adapter");
}

#[test]
fn samples_mirror_the_statistics() {
    let mut stats = Stats::default();
    stats.queue_len = 5;
    stats.rolled_back = 3;
    stats.skew = -2;
    stats.tps = 59;
    stats.peers.push(PeerStat { player: 1, nick: "a".to_string(), rtt_micros: Some(40_000) });
    stats.peers.push(PeerStat { player: 2, nick: "b".to_string(), rtt_micros: None });
    let m = MetricSample::capture(&stats);
    assert_eq!((m.lead, m.depth, m.skew, m.tps), (5, 3, -2, 59));
    assert_eq!(m.pings, vec![Some(40_000), None]);
}
