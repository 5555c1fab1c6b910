//! The playback engine's stores, cursor and seek coordination.
use vstd::prelude::*;
use crate::session::playback::ticks::{
    ascending, count_upto, distance, lemma_count_upto, lemma_put, number_upto, put, put_at,
    ticks_apart,
};

verus! {

/// Floor on the keyframe interval: never snapshot more than once a second of
/// game time.
pub const KEYFRAME_INTERVAL_MIN: u32 = 60;

/// Rough keyframe memory budget, in whole-link snapshots normalized to two
/// cores (a 4-player snapshot counts double). Long recordings widen the
/// interval instead of blowing the budget.
pub const KEYFRAME_BUDGET_2P: u32 = 400;

/// Depth of the [`RewindRing`]'s per-tick window behind the playhead.
pub const REWIND_FRAMES: u32 = 90;

/// Hard cap on rewind-ring entries for a 2-player link; scaled down for wider
/// links (their snapshots are proportionally bigger).
pub const REWIND_MAX_ENTRIES_2P: usize = 192;

/// Slowest playback, in percent.
pub const MIN_SPEED: u32 = 25;

// ---------------------------------------------------------------------
// Lookups
// ---------------------------------------------------------------------

/// The latest entry at or before a tick.
pub open spec fn best_upto<S>(e: Seq<(u32, S)>, target: u32) -> Option<(u32, S)> {
    if count_upto(e, target) == 0 {
        None
    } else {
        Some(e[count_upto(e, target) - 1])
    }
}

/// The latest entry after one tick and not after another.
pub open spec fn best_between<S>(e: Seq<(u32, S)>, lo: u32, hi: u32) -> Option<(u32, S)> {
    match best_upto(e, hi) {
        Some(x) if x.0 > lo => Some(x),
        _ => None,
    }
}

/// The entry closest to a tick; of two that are equally close, the earlier.
pub open spec fn nearest_to<S>(e: Seq<(u32, S)>, target: u32) -> Option<(u32, S)> {
    let n = count_upto(e, target) as int;
    if n == 0 && e.len() == 0 {
        None
    } else if n == 0 {
        Some(e[0])
    } else if n == e.len() || distance(e[n - 1].0, target) <= distance(e[n].0, target) {
        Some(e[n - 1])
    } else {
        Some(e[n])
    }
}

/// Whether a gap of an interval ends at a tick: nothing is kept in the
/// interval up to it.
pub open spec fn gap_at<S>(e: Seq<(u32, S)>, tick: u32, interval: u32) -> bool {
    forall|i: int|
        0 <= i < e.len() ==> !(tick - interval < (#[trigger] e[i]).0 <= tick)
}

/// Whether every two entries are an interval apart, or more.
pub open spec fn spaced<S>(e: Seq<(u32, S)>, interval: u32) -> bool {
    forall|i: int, j: int|
        0 <= i < j < e.len() ==> (#[trigger] e[j]).0 - (#[trigger] e[i]).0 >= interval
}

/// The latest entry at or before a tick is just that: kept, not after the
/// tick, and no kept one is later and not after it.
pub proof fn law_best_upto_is_the_latest<S>(e: Seq<(u32, S)>, target: u32)
    requires
        ascending(e),
    ensures
        match best_upto(e, target) {
            Some(x) => e.contains(x) && x.0 <= target && forall|i: int|
                0 <= i < e.len() && (#[trigger] e[i]).0 <= target ==> e[i].0 <= x.0,
            None => forall|i: int| 0 <= i < e.len() ==> (#[trigger] e[i]).0 > target,
        },
{
    lemma_count_upto(e, target);
    let n = count_upto(e, target) as int;
    if n > 0 {
        assert(e[n - 1].0 <= target);
        assert forall|i: int| 0 <= i < e.len() && (#[trigger] e[i]).0 <= target implies e[i].0
            <= e[n - 1].0 by {
            if i < n - 1 {
                assert(e[i].0 < e[n - 1].0);
            }
        }
    }
}

/// The latest entry in a range is just that, whichever way round the bounds
/// are: kept, in the range, and no kept one in it is later. There is one
/// exactly where something kept is in the range, so never where the bounds are
/// reversed.
pub proof fn law_best_between_is_the_latest<S>(e: Seq<(u32, S)>, lo: u32, hi: u32)
    requires
        ascending(e),
    ensures
        match best_between(e, lo, hi) {
            Some(x) => e.contains(x) && lo < x.0 <= hi && forall|i: int|
                0 <= i < e.len() && lo < (#[trigger] e[i]).0 <= hi ==> e[i].0 <= x.0,
            None => forall|i: int| 0 <= i < e.len() ==> !(lo < (#[trigger] e[i]).0 <= hi),
        },
        lo >= hi ==> best_between(e, lo, hi) is None,
{
    law_best_upto_is_the_latest(e, hi);
}

/// Keyframes taken in order, each where it fills a gap, are never closer than
/// the interval.
pub proof fn law_keyframes_keep_their_distance<S>(
    e: Seq<(u32, S)>,
    tick: u32,
    s: S,
    interval: u32,
)
    requires
        ascending(e),
        spaced(e, interval),
        interval > 0,
        gap_at(e, tick, interval),
        forall|i: int| 0 <= i < e.len() ==> (#[trigger] e[i]).0 <= tick,
    ensures
        spaced(put(e, tick, s), interval),
{
    if e.len() > 0 {
        assert(e[e.len() - 1].0 < tick);
    }
    assert(put(e, tick, s) == e.push((tick, s)));
}

/// The nearest entry is just that: kept, and none is closer.
pub proof fn law_nearest_is_the_closest<S>(e: Seq<(u32, S)>, target: u32)
    requires
        ascending(e),
    ensures
        match nearest_to(e, target) {
            Some(x) => e.contains(x) && forall|i: int|
                0 <= i < e.len() ==> distance(x.0, target) <= distance(
                    (#[trigger] e[i]).0,
                    target,
                ),
            None => e.len() == 0,
        },
{
    lemma_count_upto(e, target);
    let n = count_upto(e, target) as int;
    if e.len() > 0 {
        let x = nearest_to(e, target)->Some_0;
        if n > 0 {
            assert(e[n - 1].0 <= target);
        }
        if n < e.len() {
            assert(e[n].0 > target);
        }
        assert forall|i: int| 0 <= i < e.len() implies distance(x.0, target) <= distance(
            (#[trigger] e[i]).0,
            target,
        ) by {
            if i < n - 1 {
                assert(e[i].0 < e[n - 1].0);
            }
            if i > n {
                assert(e[n].0 < e[i].0);
            }
        }
    }
}

fn find_best_upto<S>(e: &Vec<(u32, S)>, target: u32) -> (r: Option<&(u32, S)>)
    ensures
        match r {
            Some(x) => best_upto(e@, target) == Some(*x),
            None => best_upto(e@, target) is None,
        },
{
    let n: usize = number_upto(e, target);
    if n == 0 {
        None
    } else {
        Some(&e[n - 1])
    }
}

fn find_nearest<S>(e: &Vec<(u32, S)>, target: u32) -> (r: Option<&(u32, S)>)
    ensures
        match r {
            Some(x) => nearest_to(e@, target) == Some(*x),
            None => nearest_to(e@, target) is None,
        },
{
    let n: usize = number_upto(e, target);
    if e.len() == 0 {
        None
    } else if n == 0 {
        Some(&e[0])
    } else if n == e.len() || ticks_apart(e[n - 1].0, target) <= ticks_apart(e[n].0, target) {
        Some(&e[n - 1])
    } else {
        Some(&e[n])
    }
}

// ---------------------------------------------------------------------
// The keyframe store
// ---------------------------------------------------------------------

/// Sparse keyframe store covering the whole replay, shared between the
/// prefetch worker, the drive loop, and the seek chase.
#[derive(Debug)]
pub struct SnapshotStore<S> {
    pub entries: Vec<(u32, S)>,
    pub interval: u32,
}

/// The keyframe interval of a recording: long ones and wide links get a longer
/// one, so that memory stays bounded.
pub open spec fn keyframe_interval(total_ticks: u32, num_players: nat) -> nat {
    let sides = if num_players < 2 {
        2
    } else {
        num_players
    };
    let share = (2 * KEYFRAME_BUDGET_2P as nat) / sides;
    let budget = if share < 16 {
        16
    } else {
        share
    };
    let interval = total_ticks as nat / budget;
    if interval < KEYFRAME_INTERVAL_MIN {
        KEYFRAME_INTERVAL_MIN as nat
    } else {
        interval
    }
}

impl<S> SnapshotStore<S> {
    pub open spec fn wf(&self) -> bool {
        ascending(self.entries@)
    }

    /// Budget the keyframe interval by recording length and player count so
    /// memory stays bounded.
    pub fn new(total_ticks: u32, num_players: usize) -> (s: SnapshotStore<S>)
        ensures
            s.wf(),
            s.entries@.len() == 0,
            s.interval == keyframe_interval(total_ticks, num_players as nat),
    {
        let sides: usize = if num_players < 2 {
            2
        } else {
            num_players
        };
        let share: usize = 800 / sides;
        let budget: u32 = if share < 16 {
            16
        } else {
            share as u32
        };
        assert(share <= 800) by (nonlinear_arith)
            requires
                share == 800int / sides as int,
                sides >= 2,
        ;
        let interval: u32 = total_ticks / budget;
        SnapshotStore {
            entries: Vec::new(),
            interval: if interval < KEYFRAME_INTERVAL_MIN {
                KEYFRAME_INTERVAL_MIN
            } else {
                interval
            },
        }
    }

    /// True if no keyframe exists within the interval at or before `tick`:
    /// capturing here fills a gap.
    pub fn snapshot_needed(&self, tick: u32) -> (b: bool)
        requires
            self.wf(),
        ensures
            b == gap_at(self.entries@, tick, self.interval),
    {
        proof {
            law_best_upto_is_the_latest(self.entries@, tick);
        }
        match find_best_upto(&self.entries, tick) {
            Some(x) => {
                proof {
                    let i = choose|i: int| 0 <= i < self.entries@.len() && self.entries@[i] == *x;
                    assert(self.entries@[i].0 == x.0);
                }
                tick - x.0 >= self.interval
            },
            None => true,
        }
    }

    pub fn push(&mut self, tick: u32, snap: S)
        requires
            old(self).wf(),
        ensures
            final(self).wf(),
            final(self).entries@ == put(old(self).entries@, tick, snap),
            final(self).interval == old(self).interval,
    {
        proof {
            lemma_put(self.entries@, tick, snap);
        }
        put_at(&mut self.entries, tick, snap);
    }

    /// Largest keyframe with `tick <= target`, if any.
    pub fn best_at_or_before(&self, target: u32) -> (r: Option<&(u32, S)>)
        ensures
            match r {
                Some(x) => best_upto(self.entries@, target) == Some(*x),
                None => best_upto(self.entries@, target) is None,
            },
    {
        find_best_upto(&self.entries, target)
    }

    /// Largest keyframe with `lo_exclusive < tick <= hi_inclusive`.
    pub fn best_in_range(&self, lo_exclusive: u32, hi_inclusive: u32) -> (r: Option<&(u32, S)>)
        ensures
            match r {
                Some(x) => best_between(self.entries@, lo_exclusive, hi_inclusive) == Some(*x),
                None => best_between(self.entries@, lo_exclusive, hi_inclusive) is None,
            },
    {
        match find_best_upto(&self.entries, hi_inclusive) {
            Some(x) => if x.0 > lo_exclusive {
                Some(x)
            } else {
                None
            },
            None => None,
        }
    }

    /// Keyframe closest to `target` on either side, if any.
    pub fn nearest(&self, target: u32) -> (r: Option<&(u32, S)>)
        ensures
            match r {
                Some(x) => nearest_to(self.entries@, target) == Some(*x),
                None => nearest_to(self.entries@, target) is None,
            },
    {
        find_nearest(&self.entries, target)
    }
}

// ---------------------------------------------------------------------
// The rewind ring
// ---------------------------------------------------------------------

/// Rolling per-tick snapshot window trailing the playhead: every tick the
/// playback link runs (normal playback and seek chases alike) is captured, so
/// short backward steps land on exact snapshots.
#[derive(Debug)]
pub struct RewindRing<S> {
    pub entries: Vec<(u32, S)>,
    pub anchor: u32,
    pub keyframe_interval: u32,
    pub max_entries: usize,
}

/// The entries from a tick on.
pub open spec fn from_tick<S>(e: Seq<(u32, S)>, keep: u32) -> Seq<(u32, S)>
    decreases e.len(),
{
    if e.len() == 0 || e[0].0 >= keep {
        e
    } else {
        from_tick(e.skip(1), keep)
    }
}

/// At most `max` entries: while there are more, the end further from the anchor
/// goes, the front on a tie.
pub open spec fn capped<S>(e: Seq<(u32, S)>, anchor: u32, max: nat) -> Seq<(u32, S)>
    decreases e.len(),
{
    if e.len() <= max || e.len() == 0 {
        e
    } else if distance(e[0].0, anchor) >= distance(e.last().0, anchor) {
        capped(e.skip(1), anchor, max)
    } else {
        capped(e.drop_last(), anchor, max)
    }
}

/// The first tick a window behind an anchor still covers.
pub open spec fn window_start(anchor: u32, keyframe_interval: u32) -> u32 {
    let depth = REWIND_FRAMES + keyframe_interval + 1;
    if anchor >= depth {
        (anchor - depth) as u32
    } else {
        0
    }
}

/// The ring after a capture at a tick: forward playback drags the anchor
/// along, captures below it leave it where the chase put it.
pub open spec fn ring_after<S>(
    e: Seq<(u32, S)>,
    anchor: u32,
    tick: u32,
    s: S,
    keyframe_interval: u32,
    max: nat,
) -> Seq<(u32, S)> {
    capped(from_tick(put(e, tick, s), window_start(anchor, keyframe_interval)), anchor, max)
}

proof fn lemma_skip_ascending<S>(e: Seq<(u32, S)>)
    requires
        ascending(e),
        e.len() > 0,
    ensures
        ascending(e.skip(1)),
        ascending(e.drop_last()),
{
    let f = e.skip(1);
    assert forall|i: int, j: int| 0 <= i < j < f.len() implies (#[trigger] f[i]).0 < (
    #[trigger] f[j]).0 by {
        assert(e[i + 1].0 < e[j + 1].0);
    }
    let d = e.drop_last();
    assert forall|i: int, j: int| 0 <= i < j < d.len() implies (#[trigger] d[i]).0 < (
    #[trigger] d[j]).0 by {
        assert(e[i].0 < e[j].0);
    }
}

proof fn lemma_from_tick<S>(e: Seq<(u32, S)>, keep: u32)
    requires
        ascending(e),
    ensures
        ascending(from_tick(e, keep)),
        forall|i: int| 0 <= i < from_tick(e, keep).len() ==> (#[trigger] from_tick(e, keep)[i]).0
            >= keep,
        forall|x: (u32, S)|
            x.0 >= keep && e.contains(x) ==> #[trigger] from_tick(e, keep).contains(x),
    decreases e.len(),
{
    if e.len() > 0 && e[0].0 < keep {
        lemma_skip_ascending(e);
        let f = e.skip(1);
        lemma_from_tick(f, keep);
        assert forall|x: (u32, S)| x.0 >= keep && e.contains(x) implies #[trigger] from_tick(
            e,
            keep,
        ).contains(x) by {
            let i = choose|i: int| 0 <= i < e.len() && e[i] == x;
            assert(f[i - 1] == x);
            assert(f.contains(x));
            assert(from_tick(f, keep).contains(x));
        }
    } else if e.len() > 0 {
        assert forall|i: int| 0 <= i < e.len() implies (#[trigger] e[i]).0 >= keep by {
            if i > 0 {
                assert(e[0].0 < e[i].0);
            }
        }
    }
}

proof fn lemma_capped<S>(e: Seq<(u32, S)>, anchor: u32, max: nat)
    requires
        ascending(e),
    ensures
        ascending(capped(e, anchor, max)),
        capped(e, anchor, max).len() <= max || e.len() == 0,
        forall|i: int|
            0 <= i < capped(e, anchor, max).len() ==> e.contains(
                #[trigger] capped(e, anchor, max)[i],
            ),
        max >= 1 ==> forall|x: (u32, S)|
            x.0 == anchor && e.contains(x) ==> #[trigger] capped(e, anchor, max).contains(x),
    decreases e.len(),
{
    let c = capped(e, anchor, max);
    if e.len() > max && e.len() > 0 {
        lemma_skip_ascending(e);
        let front = distance(e[0].0, anchor) >= distance(e.last().0, anchor);
        let d = if front {
            e.skip(1)
        } else {
            e.drop_last()
        };
        lemma_capped(d, anchor, max);
        assert forall|i: int| 0 <= i < c.len() implies e.contains(#[trigger] c[i]) by {
            assert(d.contains(c[i]));
            let k = choose|k: int| 0 <= k < d.len() && d[k] == c[i];
            if front {
                assert(e[k + 1] == c[i]);
            } else {
                assert(e[k] == c[i]);
            }
        }
        if max >= 1 {
            assert forall|x: (u32, S)| x.0 == anchor && e.contains(x) implies #[trigger] c.contains(
                x,
            ) by {
                let i = choose|i: int| 0 <= i < e.len() && e[i] == x;
                if front {
                    if i == 0 {
                        assert(e[0].0 < e[e.len() - 1].0);
                    }
                    assert(d[i - 1] == x);
                } else {
                    assert(d[i] == x);
                }
                assert(d.contains(x));
            }
        }
    } else {
        assert forall|i: int| 0 <= i < c.len() implies e.contains(#[trigger] c[i]) by {
            assert(e[i] == c[i]);
        }
    }
}

/// The ring never holds more than its cap, nor anything from before its
/// window.
pub proof fn law_the_ring_is_bounded<S>(
    e: Seq<(u32, S)>,
    anchor: u32,
    tick: u32,
    s: S,
    keyframe_interval: u32,
    max: nat,
)
    requires
        ascending(e),
        max >= 1,
    ensures
        ring_after(e, anchor, tick, s, keyframe_interval, max).len() <= max,
        ascending(ring_after(e, anchor, tick, s, keyframe_interval, max)),
        forall|i: int|
            0 <= i < ring_after(e, anchor, tick, s, keyframe_interval, max).len() ==> (
            #[trigger] ring_after(e, anchor, tick, s, keyframe_interval, max)[i]).0
                >= window_start(anchor, keyframe_interval),
{
    let keep = window_start(anchor, keyframe_interval);
    let p = put(e, tick, s);
    let f = from_tick(p, keep);
    let c = capped(f, anchor, max);
    lemma_put(e, tick, s);
    lemma_from_tick(p, keep);
    lemma_capped(f, anchor, max);
    assert forall|i: int| 0 <= i < c.len() implies (#[trigger] c[i]).0 >= keep by {
        assert(f.contains(c[i]));
        let k = choose|k: int| 0 <= k < f.len() && f[k] == c[i];
        assert(f[k].0 >= keep);
    }
}

/// What forward playback just captured is in the ring: the playhead can always
/// be stepped back onto.
pub proof fn law_forward_captures_are_kept<S>(
    e: Seq<(u32, S)>,
    tick: u32,
    s: S,
    keyframe_interval: u32,
    max: nat,
)
    requires
        ascending(e),
        max >= 1,
    ensures
        ring_after(e, tick, tick, s, keyframe_interval, max).contains((tick, s)),
{
    let p = put(e, tick, s);
    let f = from_tick(p, window_start(tick, keyframe_interval));
    lemma_put(e, tick, s);
    lemma_from_tick(p, window_start(tick, keyframe_interval));
    assert(p.contains((tick, s)));
    assert(f.contains((tick, s)));
    lemma_capped(f, tick, max);
}

impl<S> RewindRing<S> {
    pub open spec fn wf(&self) -> bool {
        &&& ascending(self.entries@)
        &&& self.max_entries >= 1
        &&& self.keyframe_interval <= u32::MAX - REWIND_FRAMES - 1
    }

    pub fn new(num_players: usize, keyframe_interval: u32) -> (r: RewindRing<S>)
        requires
            keyframe_interval <= u32::MAX - REWIND_FRAMES - 1,
        ensures
            r.wf(),
            r.entries@.len() == 0,
            r.anchor == 0,
            r.keyframe_interval == keyframe_interval,
            r.max_entries == ({
                let share = 384int / (if num_players < 2 {
                    2int
                } else {
                    num_players as int
                });
                if share < 32 {
                    32
                } else {
                    share
                }
            }),
    {
        let share: usize = 384 / (if num_players < 2 {
            2
        } else {
            num_players
        });
        RewindRing {
            entries: Vec::new(),
            anchor: 0,
            keyframe_interval,
            max_entries: if share < 32 {
                32
            } else {
                share
            },
        }
    }

    /// Re-anchor the window at `tick` (each seek chase's target); normal
    /// playback captures only ever raise it.
    pub fn set_anchor(&mut self, tick: u32)
        ensures
            *final(self) == (RewindRing { anchor: tick, ..*old(self) }),
    {
        self.anchor = tick;
    }

    pub fn insert(&mut self, tick: u32, snap: S)
        requires
            old(self).wf(),
        ensures
            final(self).wf(),
            final(self).anchor == (if old(self).anchor < tick {
                tick
            } else {
                old(self).anchor
            }),
            final(self).keyframe_interval == old(self).keyframe_interval,
            final(self).max_entries == old(self).max_entries,
            final(self).entries@ == ring_after(
                old(self).entries@,
                final(self).anchor,
                tick,
                snap,
                old(self).keyframe_interval,
                old(self).max_entries as nat,
            ),
            final(self).entries@.len() <= final(self).max_entries,
    {
        if self.anchor < tick {
            self.anchor = tick;
        }
        let anchor: u32 = self.anchor;
        let ghost p = put(self.entries@, tick, snap);
        proof {
            lemma_put(self.entries@, tick, snap);
            law_the_ring_is_bounded(
                self.entries@,
                anchor,
                tick,
                snap,
                self.keyframe_interval,
                self.max_entries as nat,
            );
        }
        put_at(&mut self.entries, tick, snap);
        let depth: u32 = REWIND_FRAMES + self.keyframe_interval + 1;
        let keep: u32 = if anchor >= depth {
            anchor - depth
        } else {
            0
        };
        while self.entries.len() > 0 && self.entries[0].0 < keep
            invariant
                from_tick(self.entries@, keep) == from_tick(p, keep),
                self.anchor == anchor,
                self.keyframe_interval == old(self).keyframe_interval,
                self.max_entries == old(self).max_entries,
            decreases self.entries@.len(),
        {
            let ghost before = self.entries@;
            let gone = self.entries.remove(0);
            assert(self.entries@ =~= before.skip(1));
        }
        let ghost f = from_tick(p, keep);
        let max: usize = self.max_entries;
        while self.entries.len() > max
            invariant
                capped(self.entries@, anchor, max as nat) == capped(f, anchor, max as nat),
                self.anchor == anchor,
                self.keyframe_interval == old(self).keyframe_interval,
                self.max_entries == old(self).max_entries,
                max == self.max_entries,
            decreases self.entries@.len(),
        {
            let ghost before = self.entries@;
            let n: usize = self.entries.len();
            let lo: u32 = self.entries[0].0;
            let hi: u32 = self.entries[n - 1].0;
            if ticks_apart(lo, anchor) >= ticks_apart(hi, anchor) {
                let gone = self.entries.remove(0);
                assert(self.entries@ =~= before.skip(1));
            } else {
                let gone = self.entries.pop();
                assert(self.entries@ =~= before.drop_last());
            }
        }
    }

    pub fn best_at_or_before(&self, target: u32) -> (r: Option<&(u32, S)>)
        ensures
            match r {
                Some(x) => best_upto(self.entries@, target) == Some(*x),
                None => best_upto(self.entries@, target) is None,
            },
    {
        find_best_upto(&self.entries, target)
    }

    pub fn best_in_range(&self, lo_exclusive: u32, hi_inclusive: u32) -> (r: Option<&(u32, S)>)
        ensures
            match r {
                Some(x) => best_between(self.entries@, lo_exclusive, hi_inclusive) == Some(*x),
                None => best_between(self.entries@, lo_exclusive, hi_inclusive) is None,
            },
    {
        match find_best_upto(&self.entries, hi_inclusive) {
            Some(x) => if x.0 > lo_exclusive {
                Some(x)
            } else {
                None
            },
            None => None,
        }
    }

    pub fn nearest(&self, target: u32) -> (r: Option<&(u32, S)>)
        ensures
            match r {
                Some(x) => nearest_to(self.entries@, target) == Some(*x),
                None => nearest_to(self.entries@, target) is None,
            },
    {
        find_nearest(&self.entries, target)
    }
}

/// Of two finds, the one closer to a tick; the first on a tie.
pub open spec fn closer<S>(
    a: Option<(u32, S)>,
    b: Option<(u32, S)>,
    target: u32,
) -> Option<(u32, S)> {
    match (a, b) {
        (Some(x), Some(y)) => if distance(y.0, target) < distance(x.0, target) {
            b
        } else {
            a
        },
        (None, _) => b,
        (_, None) => a,
    }
}

/// The captured snapshot nearest `target`, if any: near the playhead the
/// rewind window supplies exact frames; elsewhere it's the store's keyframes.
pub fn nearest_snapshot<'a, S>(
    store: &'a SnapshotStore<S>,
    rewind: &'a RewindRing<S>,
    target: u32,
) -> (r: Option<&'a (u32, S)>)
    ensures
        match r {
            Some(x) => closer(
                nearest_to(store.entries@, target),
                nearest_to(rewind.entries@, target),
                target,
            ) == Some(*x),
            None => closer(
                nearest_to(store.entries@, target),
                nearest_to(rewind.entries@, target),
                target,
            ) is None,
        },
{
    match (store.nearest(target), rewind.nearest(target)) {
        (Some(x), Some(y)) => if ticks_apart(y.0, target) < ticks_apart(x.0, target) {
            Some(y)
        } else {
            Some(x)
        },
        (None, y) => y,
        (x, None) => x,
    }
}

} // verus!
