//! What holds of playback as a whole: where a seek starts, where it lands, and
//! what the stores keep.
use vstd::prelude::*;
use crate::net::protocol::unpacked_blob;
use crate::replay::Metadata;
use crate::session::playback::drive::{
    all_captured, boots_from, captures_read, effective_speed, nicks_of, none_captured, BootConfig,
    BootSide,
};
use crate::session::playback::engine::{
    best_between, best_upto, capped, closer, from_tick, gap_at, keyframe_interval, law_best_between_is_the_latest,
    law_best_upto_is_the_latest, law_nearest_is_the_closest, nearest_to, ring_after, window_start,
};
use crate::session::playback::seek::{
    seek_start, seek_step, SeekAction, SeekController, SeekEvent, SeekOutcome, SeekPhase, SeekStart,
};
use crate::session::playback::ticks::{ascending, distance, lemma_put, put};

verus! {

// ---------------------------------------------------------------------
// Where a seek starts
// ---------------------------------------------------------------------

/// The tick the link stands at once a chase's start is loaded.
pub open spec fn landed_at(start: SeekStart, cur: u32) -> u32 {
    match start {
        SeekStart::Ring(t) | SeekStart::Store(t) => t,
        SeekStart::Boot => 0,
        SeekStart::Here => cur,
    }
}

/// Whether a start names a snapshot that is kept where it says.
pub open spec fn is_kept<S>(
    start: SeekStart,
    ring: Seq<(u32, S)>,
    store: Seq<(u32, S)>,
) -> bool {
    match start {
        SeekStart::Ring(t) => exists|i: int| 0 <= i < ring.len() && (#[trigger] ring[i]).0 == t,
        SeekStart::Store(t) => exists|i: int| 0 <= i < store.len() && (#[trigger] store[i]).0 == t,
        _ => false,
    }
}

/// Going back, a chase starts from the latest snapshot not after its target,
/// wherever it is kept, and from the boot exactly where every snapshot is
/// after it. It never starts from where the link stands.
pub proof fn law_a_seek_back_starts_from_the_latest_snapshot_before<S>(
    target: u32,
    cur: u32,
    ring: Seq<(u32, S)>,
    store: Seq<(u32, S)>,
)
    requires
        ascending(ring),
        ascending(store),
        target < cur,
    ensures
        ({
            let start = seek_start(target, cur, ring, store);
            &&& start != SeekStart::Here
            &&& start != SeekStart::Boot ==> is_kept(start, ring, store)
            &&& landed_at(start, cur) <= target
            &&& forall|i: int|
                0 <= i < ring.len() && (#[trigger] ring[i]).0 <= target ==> start
                    != SeekStart::Boot && ring[i].0 <= landed_at(start, cur)
            &&& forall|i: int|
                0 <= i < store.len() && (#[trigger] store[i]).0 <= target ==> start
                    != SeekStart::Boot && store[i].0 <= landed_at(start, cur)
        }),
{
    law_best_upto_is_the_latest(ring, target);
    law_best_upto_is_the_latest(store, target);
    if let Some(x) = best_upto(ring, target) {
        let i = choose|i: int| 0 <= i < ring.len() && ring[i] == x;
        assert(ring[i].0 == x.0);
    }
    if let Some(x) = best_upto(store, target) {
        let i = choose|i: int| 0 <= i < store.len() && store[i] == x;
        assert(store[i].0 == x.0);
    }
}

/// Going forward, a chase skips ahead to the latest snapshot that is past the
/// link and not past the target, and starts where the link stands exactly where
/// there is none. It never boots again.
pub proof fn law_a_seek_forward_skips_to_the_latest_snapshot_between<S>(
    target: u32,
    cur: u32,
    ring: Seq<(u32, S)>,
    store: Seq<(u32, S)>,
)
    requires
        ascending(ring),
        ascending(store),
        target >= cur,
    ensures
        ({
            let start = seek_start(target, cur, ring, store);
            &&& start != SeekStart::Boot
            &&& start != SeekStart::Here ==> is_kept(start, ring, store) && cur < landed_at(
                start,
                cur,
            )
            &&& landed_at(start, cur) <= target
            &&& forall|i: int|
                0 <= i < ring.len() && cur < (#[trigger] ring[i]).0 <= target ==> start
                    != SeekStart::Here && ring[i].0 <= landed_at(start, cur)
            &&& forall|i: int|
                0 <= i < store.len() && cur < (#[trigger] store[i]).0 <= target ==> start
                    != SeekStart::Here && store[i].0 <= landed_at(start, cur)
        }),
{
    law_best_between_is_the_latest(ring, cur, target);
    law_best_between_is_the_latest(store, cur, target);
    if let Some(x) = best_between(ring, cur, target) {
        let i = choose|i: int| 0 <= i < ring.len() && ring[i] == x;
        assert(ring[i].0 == x.0);
    }
    if let Some(x) = best_between(store, cur, target) {
        let i = choose|i: int| 0 <= i < store.len() && store[i] == x;
        assert(store[i].0 == x.0);
    }
}

/// Of two snapshots of one tick, the keyframe store's is the one to start from.
pub proof fn law_the_store_comes_before_the_ring<S>(
    target: u32,
    cur: u32,
    ring: Seq<(u32, S)>,
    store: Seq<(u32, S)>,
    i: int,
)
    requires
        ascending(ring),
        ascending(store),
        0 <= i < store.len(),
    ensures
        seek_start(target, cur, ring, store) != SeekStart::Ring(store[i].0),
{
    law_best_upto_is_the_latest(ring, target);
    law_best_upto_is_the_latest(store, target);
    if let Some(x) = best_upto(ring, target) {
        let k = choose|k: int| 0 <= k < ring.len() && ring[k] == x;
        assert(ring[k].0 == x.0);
    }
    assert(store[i].0 <= target || store[i].0 > target);
}

/// A seek is pending from the request until it has landed, whether it was taken
/// up or not.
pub proof fn law_a_seek_is_pending_until_it_lands(ctrl: SeekController)
    ensures
        (SeekController { dirty: true, ..ctrl }).pending(),
        (SeekController { chasing: true, ..ctrl }).pending(),
        !(SeekController { dirty: false, chasing: false, ..ctrl }).pending(),
{
}

/// A keyframe is wanted exactly where the last one, if there is one, is an
/// interval back or more.
pub proof fn law_when_a_keyframe_is_wanted<S>(
    e: Seq<(u32, S)>,
    tick: u32,
    interval: u32,
    i: int,
)
    requires
        0 <= i < e.len(),
    ensures
        e[i].0 <= tick && tick - e[i].0 < interval ==> !gap_at(e, tick, interval),
        (forall|k: int|
            0 <= k < e.len() ==> (#[trigger] e[k]).0 > tick || tick - e[k].0 >= interval)
            ==> gap_at(e, tick, interval),
        gap_at(Seq::<(u32, S)>::empty(), tick, interval),
{
}

// ---------------------------------------------------------------------
// Where a seek lands
// ---------------------------------------------------------------------

/// What the worker decides on: its own state, the shared state, what has
/// happened, where the link stands, and what is kept.
pub struct SeekMoment<S> {
    pub phase: SeekPhase,
    pub ctrl: SeekController,
    pub anchor: u32,
    pub event: SeekEvent,
    pub cur: u32,
    pub ring: Seq<(u32, S)>,
    pub store: Seq<(u32, S)>,
}

/// What the worker decides at a moment.
pub open spec fn decided<S>(m: SeekMoment<S>) -> SeekOutcome {
    seek_step(m.phase, m.ctrl, m.anchor, m.event, Some(m.cur), m.ring, m.store)
}

/// Whether one moment follows another with nobody asking for anything in
/// between: the worker's state and the shared one are what the decision left,
/// and the link did what was decided. A load puts it at the tick loaded, and a
/// step takes it one tick further, captured there or not at all.
pub open spec fn follows<S>(a: SeekMoment<S>, b: SeekMoment<S>) -> bool {
    let o = decided(a);
    &&& b.phase == o.phase
    &&& b.ctrl == o.ctrl
    &&& b.anchor == o.anchor
    &&& match o.action {
        SeekAction::Load(start) => b.event == SeekEvent::Loaded && b.cur == landed_at(start, a.cur),
        SeekAction::Step => {
            &&& b.cur == a.cur + 1
            &&& b.event == (SeekEvent::Stepped { captured: Some(b.cur) }) || b.event == (
            SeekEvent::Stepped { captured: None })
        },
        _ => false,
    }
}

/// Whether these are the moments of one seek that is left alone, from the idle
/// worker taking up the request on.
pub open spec fn is_one_seek<S>(run: Seq<SeekMoment<S>>) -> bool {
    &&& run.len() > 0
    &&& run[0].phase == SeekPhase::Idle
    &&& run[0].ctrl.dirty
    &&& !run[0].ctrl.cancel
    &&& ascending(run[0].ring)
    &&& ascending(run[0].store)
    &&& forall|i: int| 0 < i < run.len() ==> follows(run[i - 1], #[trigger] run[i])
}

/// The tick of the last capture of a seek up to a moment.
pub open spec fn last_captured<S>(run: Seq<SeekMoment<S>>, i: int) -> Option<u32>
    decreases i,
{
    if i <= 0 {
        None
    } else {
        match run[i].event {
            SeekEvent::Stepped { captured: Some(t) } => Some(t),
            _ => last_captured(run, i - 1),
        }
    }
}

/// What the worker's state is, some moments into a seek left alone.
proof fn lemma_seek_so_far<S>(run: Seq<SeekMoment<S>>, i: int)
    requires
        is_one_seek(run),
        0 < i < run.len(),
    ensures
        ({
            let t = run[0].ctrl.target;
            let before = decided(run[i - 1]).action;
            &&& run[i].cur <= t
            &&& run[i].anchor == t
            &&& run[i].ctrl == (SeekController { dirty: false, chasing: true, ..run[0].ctrl })
            &&& match run[i].phase {
                SeekPhase::Loading { target, tick } => {
                    &&& target == t
                    &&& tick == run[i].cur
                    &&& run[i].event == SeekEvent::Loaded
                    &&& before is Load
                    &&& last_captured(run, i) is None
                },
                SeekPhase::Chasing { target, landing } => {
                    &&& target == t
                    &&& before is Step
                    &&& landing == last_captured(run, i - 1)
                },
                _ => false,
            }
        }),
    decreases i,
{
    assert(follows(run[i - 1], run[i]));
    if i == 1 {
        let m = run[0];
        if m.ctrl.target < m.cur {
            law_a_seek_back_starts_from_the_latest_snapshot_before(
                m.ctrl.target,
                m.cur,
                m.ring,
                m.store,
            );
        } else {
            law_a_seek_forward_skips_to_the_latest_snapshot_between(
                m.ctrl.target,
                m.cur,
                m.ring,
                m.store,
            );
        }
        assert(last_captured(run, 0) is None);
    } else {
        assert(follows(run[i - 2], run[i - 1]));
        lemma_seek_so_far(run, i - 1);
    }
}

/// A seek that is left alone lands on the tick asked for, whichever way it
/// goes and wherever it starts. It starts from a load where the link is past
/// the target; after the first decision the link is never past it; it is
/// stepped on while it is short of it, and the seek is over exactly when the
/// link stands there. What is shown then is the last tick captured on the way,
/// which is the target's own wherever the last capture worked, or the snapshot
/// itself where it was the target's; nothing where the link stood there
/// already. The catch-up sound is purged unless a snapshot was landed on, and
/// playback goes on where the request asked for it.
pub proof fn law_a_seek_lands_on_its_target<S>(run: Seq<SeekMoment<S>>, i: int)
    requires
        is_one_seek(run),
        0 <= i < run.len(),
    ensures
        ({
            let t = run[0].ctrl.target;
            let o = decided(run[i]);
            let at = run[i].cur;
            &&& i > 0 ==> at <= t
            &&& i == 0 && at > t ==> o.action is Load
            &&& i == 0 && at < t ==> o.action is Load || o.action is Step
            &&& i > 0 && at < t ==> o.action == SeekAction::Step
            &&& o.action matches SeekAction::Load(s) ==> i == 0 && landed_at(s, at) <= t
            &&& o.action is Step ==> at < t
            &&& o.action is Finish <==> at == t
            &&& o.anchor == t
            &&& o.ctrl.target == t
            &&& !o.ctrl.dirty
            &&& !(o.action is Exit) && !(o.action is Wait)
            &&& at == t ==> {
                let skipped = i > 0 && decided(run[i - 1]).action is Load;
                &&& o.phase == SeekPhase::Idle
                &&& o.ctrl == (SeekController {
                    dirty: false,
                    chasing: false,
                    resume: false,
                    ..run[0].ctrl
                })
                &&& o.action == SeekAction::Finish {
                    purge: !skipped,
                    publish: if skipped {
                        Some(t)
                    } else {
                        last_captured(run, i)
                    },
                    resume: run[0].ctrl.resume,
                }
                &&& i > 0 && run[i].event != (SeekEvent::Stepped { captured: None })
                    ==> o.action->publish == Some(t)
            }
            &&& at != t ==> o.ctrl == (SeekController {
                dirty: false,
                chasing: true,
                ..run[0].ctrl
            })
        }),
{
    let m = run[0];
    if i == 0 {
        if m.ctrl.target < m.cur {
            law_a_seek_back_starts_from_the_latest_snapshot_before(
                m.ctrl.target,
                m.cur,
                m.ring,
                m.store,
            );
        } else {
            law_a_seek_forward_skips_to_the_latest_snapshot_between(
                m.ctrl.target,
                m.cur,
                m.ring,
                m.store,
            );
        }
    } else {
        lemma_seek_so_far(run, i);
        assert(follows(run[i - 1], run[i]));
    }
}

/// What a chase under way does where it is not left alone. A shutdown ends the
/// worker for good. A newer request is taken up as an idle worker would take it
/// up from where the link stands. At the end of the stream the seek is over,
/// and what was captured last is shown; a snapshot that cannot be loaded ends
/// it with nothing shown.
pub proof fn law_what_cuts_a_chase_short<S>(
    ctrl: SeekController,
    anchor: u32,
    target: u32,
    landing: Option<u32>,
    event: SeekEvent,
    cur: u32,
    ring: Seq<(u32, S)>,
    store: Seq<(u32, S)>,
)
    requires
        ctrl.chasing,
    ensures
        ({
            let at = SeekPhase::Chasing { target, landing };
            let o = seek_step(at, ctrl, anchor, event, Some(cur), ring, store);
            let anew = seek_step(
                SeekPhase::Idle,
                ctrl,
                anchor,
                SeekEvent::Polled,
                Some(cur),
                ring,
                store,
            );
            &&& cur < target && event != SeekEvent::StreamEnded && ctrl.cancel ==> {
                &&& o.action == SeekAction::Exit
                &&& o.phase == SeekPhase::Stopped
                &&& o.ctrl == (SeekController { chasing: false, ..ctrl })
            }
            &&& cur < target && event != SeekEvent::StreamEnded && !ctrl.cancel && ctrl.dirty
                ==> o == anew
            &&& event == SeekEvent::StreamEnded ==> {
                &&& o.action == SeekAction::Finish {
                    purge: true,
                    publish: landing,
                    resume: ctrl.resume && !ctrl.dirty,
                }
                &&& o.phase == SeekPhase::Idle
                &&& !o.ctrl.chasing
                &&& o.ctrl.dirty == ctrl.dirty
                &&& o.ctrl.target == ctrl.target
                &&& o.ctrl.resume == (ctrl.resume && ctrl.dirty)
            }
        }),
        ({
            let at = SeekPhase::Loading { target, tick: cur };
            let o = seek_step(at, ctrl, anchor, SeekEvent::LoadFailed, Some(cur), ring, store);
            &&& o.action == SeekAction::Finish {
                purge: false,
                publish: None,
                resume: ctrl.resume && !ctrl.dirty,
            }
            &&& o.phase == SeekPhase::Idle
            &&& !o.ctrl.chasing
            &&& o.ctrl.dirty == ctrl.dirty
            &&& o.ctrl.target == ctrl.target
            &&& o.ctrl.resume == (ctrl.resume && ctrl.dirty)
        }),
{
}

/// What becomes of a seek once its snapshot is loaded. One at the target is
/// shown, and the seek is over, whatever was asked for since. Short of it a
/// shutdown ends the worker, and a newer request is taken up as an idle worker
/// would take it up from there.
pub proof fn law_what_follows_a_load<S>(
    ctrl: SeekController,
    anchor: u32,
    target: u32,
    tick: u32,
    ring: Seq<(u32, S)>,
    store: Seq<(u32, S)>,
)
    requires
        ctrl.chasing,
    ensures
        ({
            let at = SeekPhase::Loading { target, tick };
            let o = seek_step(at, ctrl, anchor, SeekEvent::Loaded, Some(tick), ring, store);
            let anew = seek_step(
                SeekPhase::Idle,
                ctrl,
                anchor,
                SeekEvent::Polled,
                Some(tick),
                ring,
                store,
            );
            &&& tick >= target ==> {
                &&& o.action == SeekAction::Finish {
                    purge: false,
                    publish: Some(tick),
                    resume: ctrl.resume && !ctrl.dirty,
                }
                &&& o.phase == SeekPhase::Idle
                &&& o.ctrl == (SeekController {
                    chasing: false,
                    resume: ctrl.resume && ctrl.dirty,
                    ..ctrl
                })
            }
            &&& tick < target && ctrl.cancel ==> {
                &&& o.action == SeekAction::Exit
                &&& o.phase == SeekPhase::Stopped
                &&& o.ctrl == (SeekController { chasing: false, ..ctrl })
            }
            &&& tick < target && !ctrl.cancel && ctrl.dirty ==> o == anew
            &&& tick < target && !ctrl.cancel && !ctrl.dirty ==> {
                &&& o.action == SeekAction::Step
                &&& o.phase == (SeekPhase::Chasing { target, landing: None })
                &&& o.ctrl == ctrl
            }
        }),
{
}

/// What an idle worker does where there is nothing to chase: it exits on a
/// shutdown, waits with nothing changed where nothing was asked for, and drops
/// a request while the link still boots. Once stopped it stays so.
pub proof fn law_an_idle_worker_waits<S>(
    ctrl: SeekController,
    anchor: u32,
    event: SeekEvent,
    cur: Option<u32>,
    ring: Seq<(u32, S)>,
    store: Seq<(u32, S)>,
)
    ensures
        ({
            let o = seek_step(SeekPhase::Idle, ctrl, anchor, event, cur, ring, store);
            &&& ctrl.cancel ==> o.action == SeekAction::Exit && o.phase == SeekPhase::Stopped
                && o.ctrl == ctrl && o.anchor == anchor
            &&& !ctrl.cancel && !ctrl.dirty ==> o.action == SeekAction::Wait && o.phase
                == SeekPhase::Idle && o.ctrl == ctrl && o.anchor == anchor
            &&& !ctrl.cancel && ctrl.dirty && cur is None ==> {
                &&& o.action == SeekAction::Finish {
                    purge: false,
                    publish: None,
                    resume: ctrl.resume,
                }
                &&& o.phase == SeekPhase::Idle
                &&& !o.ctrl.dirty && !o.ctrl.chasing && !o.ctrl.resume
            }
        }),
        ({
            let o = seek_step(SeekPhase::Stopped, ctrl, anchor, event, cur, ring, store);
            o.action == SeekAction::Exit && o.phase == SeekPhase::Stopped && o.ctrl == ctrl
        }),
{
}

// ---------------------------------------------------------------------
// What is kept
// ---------------------------------------------------------------------

/// What is kept at a tick is found there, and nothing else that was kept is
/// lost, moved or changed.
pub proof fn law_what_is_kept_is_found<S>(e: Seq<(u32, S)>, tick: u32, s: S, other: u32)
    requires
        ascending(e),
    ensures
        best_upto(put(e, tick, s), tick) == Some((tick, s)),
        nearest_to(put(e, tick, s), tick) == Some((tick, s)),
        other < tick ==> best_upto(put(e, tick, s), other) == best_upto(e, other),
{
    lemma_put(e, tick, s);
    let p = put(e, tick, s);
    let at = choose|i: int| 0 <= i < p.len() && p[i] == (tick, s);
    assert(p[at].0 == tick);
    law_best_upto_is_the_latest(p, tick);
    law_nearest_is_the_closest(p, tick);
    let b = best_upto(p, tick)->Some_0;
    let j = choose|i: int| 0 <= i < p.len() && p[i] == b;
    assert(p[j].0 == tick);
    if j < at {
        assert(p[j].0 < p[at].0);
    } else if at < j {
        assert(p[at].0 < p[j].0);
    }
    let n = nearest_to(p, tick)->Some_0;
    let k = choose|i: int| 0 <= i < p.len() && p[i] == n;
    assert(distance(p[at].0, tick) == 0);
    assert(p[k].0 == tick);
    if k < at {
        assert(p[k].0 < p[at].0);
    } else if at < k {
        assert(p[at].0 < p[k].0);
    }
    if other < tick {
        law_best_upto_is_the_latest(p, other);
        law_best_upto_is_the_latest(e, other);
        if let Some(x) = best_upto(e, other) {
            assert(p.contains(x));
            let i = choose|i: int| 0 <= i < p.len() && p[i] == x;
            assert(p[i].0 <= other);
            let y = best_upto(p, other)->Some_0;
            assert(e.contains(y));
            let a = choose|i: int| 0 <= i < e.len() && e[i] == x;
            let b = choose|i: int| 0 <= i < e.len() && e[i] == y;
            assert(e[b].0 <= other);
            if a < b {
                assert(e[a].0 < e[b].0);
            } else if b < a {
                assert(e[b].0 < e[a].0);
            }
        } else if let Some(y) = best_upto(p, other) {
            assert(e.contains(y));
            let b = choose|i: int| 0 <= i < e.len() && e[i] == y;
            assert(e[b].0 > other);
        }
    }
}

proof fn lemma_capping_drops_the_furthest<S>(e: Seq<(u32, S)>, anchor: u32, max: nat)
    requires
        ascending(e),
    ensures
        ({
            let c = capped(e, anchor, max);
            &&& ascending(c)
            &&& c.len() == if e.len() <= max {
                e.len()
            } else {
                max
            }
            &&& forall|x: (u32, S)| #[trigger] c.contains(x) ==> e.contains(x)
            &&& forall|x: (u32, S), y: (u32, S)| #[trigger]
                e.contains(x) && !c.contains(x) && #[trigger] c.contains(y) ==> distance(
                    x.0,
                    anchor,
                ) >= distance(y.0, anchor)
        }),
    decreases e.len(),
{
    let c = capped(e, anchor, max);
    if e.len() > max && e.len() > 0 {
        let n = e.len() as int;
        let front = distance(e[0].0, anchor) >= distance(e.last().0, anchor);
        let gone = if front {
            e[0]
        } else {
            e[n - 1]
        };
        let d = if front {
            e.skip(1)
        } else {
            e.drop_last()
        };
        assert forall|i: int, j: int| 0 <= i < j < d.len() implies (#[trigger] d[i]).0 < (
        #[trigger] d[j]).0 by {
            if front {
                assert(e[i + 1].0 < e[j + 1].0);
            } else {
                assert(e[i].0 < e[j].0);
            }
        }
        lemma_capping_drops_the_furthest(d, anchor, max);
        assert forall|x: (u32, S)| #[trigger] d.contains(x) implies e.contains(x) && distance(
            gone.0,
            anchor,
        ) >= distance(x.0, anchor) by {
            let k = choose|k: int| 0 <= k < d.len() && d[k] == x;
            let at = if front {
                k + 1
            } else {
                k
            };
            assert(e[at] == x);
            if at > 0 {
                assert(e[0].0 < e[at].0);
            }
            if at < n - 1 {
                assert(e[at].0 < e[n - 1].0);
            }
        }
        assert forall|x: (u32, S)| #[trigger] c.contains(x) implies e.contains(x) by {
            assert(d.contains(x));
        }
        assert forall|x: (u32, S), y: (u32, S)| #[trigger]
            e.contains(x) && !c.contains(x) && #[trigger] c.contains(y) implies distance(
            x.0,
            anchor,
        ) >= distance(y.0, anchor) by {
            assert(d.contains(y));
            let k = choose|k: int| 0 <= k < e.len() && e[k] == x;
            if x != gone {
                if front {
                    assert(d[k - 1] == x);
                } else {
                    assert(d[k] == x);
                }
                assert(d.contains(x));
            }
        }
    }
}

proof fn lemma_from_tick_keeps_the_rest<S>(e: Seq<(u32, S)>, keep: u32)
    requires
        ascending(e),
    ensures
        ascending(from_tick(e, keep)),
        forall|x: (u32, S)| #[trigger]
            from_tick(e, keep).contains(x) <==> e.contains(x) && x.0 >= keep,
    decreases e.len(),
{
    let f = from_tick(e, keep);
    if e.len() > 0 && e[0].0 < keep {
        let d = e.skip(1);
        assert forall|i: int, j: int| 0 <= i < j < d.len() implies (#[trigger] d[i]).0 < (
        #[trigger] d[j]).0 by {
            assert(e[i + 1].0 < e[j + 1].0);
        }
        lemma_from_tick_keeps_the_rest(d, keep);
        assert forall|x: (u32, S)| #[trigger] f.contains(x) <==> e.contains(x) && x.0 >= keep by {
            if e.contains(x) && x.0 >= keep {
                let k = choose|k: int| 0 <= k < e.len() && e[k] == x;
                assert(d[k - 1] == x);
                assert(d.contains(x));
            }
            if d.contains(x) {
                let k = choose|k: int| 0 <= k < d.len() && d[k] == x;
                assert(e[k + 1] == x);
            }
        }
    } else {
        assert forall|x: (u32, S)| #[trigger] f.contains(x) <==> e.contains(x) && x.0 >= keep by {
            if e.contains(x) {
                let k = choose|k: int| 0 <= k < e.len() && e[k] == x;
                if k > 0 {
                    assert(e[0].0 < e[k].0);
                }
            }
        }
    }
}

/// What the ring holds after a capture was in it before or is the capture. Of
/// what its window covers it lets go of something only where it is full, and
/// then of nothing that is closer to the anchor than anything it keeps.
pub proof fn law_the_ring_keeps_what_is_closest<S>(
    e: Seq<(u32, S)>,
    anchor: u32,
    tick: u32,
    s: S,
    keyframe_interval: u32,
    max: nat,
    x: (u32, S),
    y: (u32, S),
)
    requires
        ascending(e),
    ensures
        ({
            let r = ring_after(e, anchor, tick, s, keyframe_interval, max);
            let covered = x.0 >= window_start(anchor, keyframe_interval) && (x == (tick, s) || (
            x.0 != tick && e.contains(x)));
            &&& r.contains(x) ==> covered
            &&& covered && !r.contains(x) ==> r.len() == max
            &&& covered && !r.contains(x) && r.contains(y) ==> distance(x.0, anchor) >= distance(
                y.0,
                anchor,
            )
        }),
{
    let p = put(e, tick, s);
    let f = from_tick(p, window_start(anchor, keyframe_interval));
    lemma_put(e, tick, s);
    lemma_from_tick_keeps_the_rest(p, window_start(anchor, keyframe_interval));
    lemma_capping_drops_the_furthest(f, anchor, max);
    let c = capped(f, anchor, max);
    if p.contains(x) && x.0 == tick {
        let i = choose|i: int| 0 <= i < p.len() && p[i] == x;
        let j = choose|i: int| 0 <= i < p.len() && p[i] == (tick, s);
        if i < j {
            assert(p[i].0 < p[j].0);
        } else if j < i {
            assert(p[j].0 < p[i].0);
        }
    }
    if x.0 != tick {
        assert(p.contains(x) <==> e.contains(x));
    }
    assert(f.contains(x) <==> p.contains(x) && x.0 >= window_start(anchor, keyframe_interval));
    if c.contains(x) {
        assert(f.contains(x));
    }
}

/// Of two finds the one shown is a find, and the other is no closer; something
/// is shown wherever there is a find.
pub proof fn law_the_closer_find_is_shown<S>(
    a: Option<(u32, S)>,
    b: Option<(u32, S)>,
    target: u32,
)
    ensures
        match closer(a, b, target) {
            Some(x) => {
                &&& a == Some(x) || b == Some(x)
                &&& a matches Some(y) ==> distance(x.0, target) <= distance(y.0, target)
                &&& b matches Some(y) ==> distance(x.0, target) <= distance(y.0, target)
                &&& a matches Some(y) ==> distance(x.0, target) == distance(y.0, target)
                    ==> x == y
            },
            None => a is None && b is None,
        },
{
}

/// The distance of two ticks is the same both ways, and what one is ahead of
/// the other.
pub proof fn law_distances_are_symmetric(a: u32, b: u32)
    ensures
        distance(a, b) == distance(b, a),
        a <= b ==> a + distance(a, b) == b,
{
}

/// Keyframes are at least a second of play apart. A recording of up to
/// two players has at most four hundred of them once they are further apart
/// than that, and one interval less would make more; with more players
/// there are as many fewer as their snapshots are larger, and sixteen at least
/// are planned for.
pub proof fn law_keyframes_fit_their_budget(total_ticks: u32, num_players: nat, budget: nat)
    requires
        num_players <= 2 ==> budget == 400,
        2 < num_players <= 50 ==> budget * num_players <= 800 < (budget + 1) * num_players,
        num_players > 50 ==> budget == 16,
    ensures
        ({
            let interval = keyframe_interval(total_ticks, num_players);
            &&& interval >= 60
            &&& total_ticks < (interval + 1) * budget
            &&& interval > 60 ==> interval * budget <= total_ticks
        }),
{
    let sides: nat = if num_players < 2 {
        2
    } else {
        num_players
    };
    let share = 800nat / sides;
    if num_players <= 2 {
        assert(share == 400);
    } else if num_players <= 50 {
        assert(share == budget) by (nonlinear_arith)
            requires
                share == 800nat / sides,
                sides > 2,
                budget * sides <= 800 < (budget + 1) * sides,
        ;
        assert(budget >= 16) by (nonlinear_arith)
            requires
                800 < (budget + 1) * sides,
                sides <= 50,
        ;
    } else {
        assert(share < 16) by (nonlinear_arith)
            requires
                share == 800nat / sides,
                sides > 50,
        ;
    }
    let q = total_ticks as nat / budget;
    assert(q * budget <= total_ticks < (q + 1) * budget) by (nonlinear_arith)
        requires
            q == total_ticks as nat / budget,
            budget >= 16,
    ;
    let interval = keyframe_interval(total_ticks, num_players);
    assert((q + 1) * budget <= (interval + 1) * budget) by (nonlinear_arith)
        requires
            q <= interval,
            budget >= 0,
    ;
}

/// The window behind an anchor reaches back a second and a half and one
/// keyframe interval, and to the start of the recording where that is nearer.
pub proof fn law_the_window_reaches_back(anchor: u32, keyframe_interval: u32)
    ensures
        window_start(anchor, keyframe_interval) <= anchor,
        anchor - window_start(anchor, keyframe_interval) <= 91 + keyframe_interval,
        window_start(anchor, keyframe_interval) > 0 ==> anchor - window_start(
            anchor,
            keyframe_interval,
        ) == 91 + keyframe_interval,
{
}

/// Playback never runs slower than a quarter of the speed, and at the speed
/// asked for wherever that is no slower.
pub proof fn law_playback_speed_has_a_floor(speed: u32)
    ensures
        effective_speed(speed) >= 25,
        speed >= 25 ==> effective_speed(speed) == speed,
        speed < 25 ==> effective_speed(speed) == 25,
{
}

// ---------------------------------------------------------------------
// What playback boots from
// ---------------------------------------------------------------------

/// A side boots from its own cart, and from the state and the save its capture
/// holds; one without a capture, or with one that does not read, boots from
/// none.
pub proof fn law_sides_boot_from_their_captures(
    side: BootSide,
    rom: Seq<u8>,
    boot: Option<Vec<u8>>,
)
    requires
        boots_from(side, rom, boot),
    ensures
        side.rom@ == rom,
        boot matches Some(b) && unpacked_blob(b@) matches Some(blob) && {
            &&& side.state@ == blob.state
            &&& side.save matches Some(s) ==> blob.save == Some(s@)
            &&& side.save is None ==> blob.save is None
        },
{
}

/// Whether a recording was captured is a matter of all its sides: each must
/// be, or none. It has as many sides as there are carts and captures for.
pub proof fn law_captures_are_all_or_nothing(
    boots: Seq<Option<Vec<u8>>>,
    c: BootConfig,
    i: int,
)
    requires
        0 <= i < boots.len(),
    ensures
        all_captured(boots) ==> boots[i] is Some && !none_captured(boots),
        none_captured(boots) ==> boots[i] is None && !all_captured(boots),
        captures_read(boots) ==> (boots[i] matches Some(b) && unpacked_blob(b@) is Some),
        c.num_sides() <= c.roms@.len(),
        c.num_sides() <= c.boots@.len(),
        c.num_sides() == c.roms@.len() || c.num_sides() == c.boots@.len(),
{
}

/// The players of a recording go by the nicks it has for them, in its order.
pub proof fn law_nicks_are_the_recordings(nicks: Seq<String>, m: Metadata, i: int)
    requires
        nicks_of(nicks, m),
        0 <= i < m.players@.len(),
    ensures
        nicks.len() == m.players@.len(),
        nicks[i]@ == m.players@[i].nick@,
{
}

} // verus!
