//! Seeks. Requests land on a [`SeekController`] and a worker chases the newest
//! target, so whoever asks never waits for catch-up emulation.
use vstd::prelude::*;
use crate::session::playback::engine::{best_between, best_upto, RewindRing, SnapshotStore};

verus! {

/// Coordination state between seek requesters and the seek worker. Requests
/// coalesce: only the most recent target matters, and an in-flight chase
/// retargets mid-loop instead of finishing stale work.
#[derive(Debug, Clone, Copy, PartialEq, Eq, Structural)]
pub struct SeekController {
    /// Latest requested absolute tick.
    pub target: u32,
    /// `target` holds a request no chase has consumed yet.
    pub dirty: bool,
    /// A chase is currently running on the playback link.
    pub chasing: bool,
    /// Unpause playback once the chase lands (set by seeks that paused
    /// playback for the duration, e.g. a scrub drag).
    pub resume: bool,
    /// Tells the worker and any in-flight chase to exit.
    pub cancel: bool,
}

impl Default for SeekController {
    fn default() -> (c: SeekController)
        ensures
            c == (SeekController {
                target: 0,
                dirty: false,
                chasing: false,
                resume: false,
                cancel: false,
            }),
    {
        SeekController::new()
    }
}

impl SeekController {
    pub fn new() -> (c: SeekController)
        ensures
            c == (SeekController {
                target: 0,
                dirty: false,
                chasing: false,
                resume: false,
                cancel: false,
            }),
    {
        SeekController { target: 0, dirty: false, chasing: false, resume: false, cancel: false }
    }

    /// Record `target` as the newest seek request. Supersedes any
    /// not-yet-landed request.
    pub fn request(&mut self, target: u32, resume_after: bool)
        ensures
            *final(self) == (SeekController {
                target,
                resume: resume_after,
                dirty: true,
                ..*old(self)
            }),
    {
        self.target = target;
        self.resume = resume_after;
        self.dirty = true;
    }

    /// Permanently stop the worker (and abort any in-flight chase).
    pub fn shutdown(&mut self)
        ensures
            *final(self) == (SeekController { cancel: true, ..*old(self) }),
    {
        self.cancel = true;
    }

    /// Whether a seek has not landed yet.
    pub open spec fn pending(&self) -> bool {
        self.dirty || self.chasing
    }

    /// Target of the not-yet-landed seek, if any. Lets the UI draw the
    /// playhead where it's headed instead of where the core still is.
    pub fn pending_target(&self) -> (t: Option<u32>)
        ensures
            t == (if self.pending() {
                Some(self.target)
            } else {
                None
            }),
    {
        if self.dirty || self.chasing {
            Some(self.target)
        } else {
            None
        }
    }

    /// True while a not-yet-landed seek will unpause playback when it lands:
    /// the UI should keep displaying the playing state.
    pub fn resume_pending(&self) -> (b: bool)
        ensures
            b == (self.pending() && self.resume),
    {
        (self.dirty || self.chasing) && self.resume
    }

    /// Withdraw a pending resume: the seek still lands, but playback stays
    /// paused afterwards.
    pub fn clear_resume(&mut self)
        ensures
            *final(self) == (SeekController { resume: false, ..*old(self) }),
    {
        self.resume = false;
    }

    /// What the worker is to do: `Some(false)` on shutdown, `Some(true)` where
    /// a request landed, `None` to go on waiting.
    pub fn wait_for_request(&self) -> (r: Option<bool>)
        ensures
            r == (if self.cancel {
                Some(false)
            } else if self.dirty {
                Some(true)
            } else {
                None
            }),
    {
        if self.cancel {
            Some(false)
        } else if self.dirty {
            Some(true)
        } else {
            None
        }
    }

    /// Mark a chase pass running: [`Self::pending_target`] keeps reporting
    /// until [`Self::end_pass`].
    pub fn begin_pass(&mut self)
        ensures
            *final(self) == (SeekController { chasing: true, ..*old(self) }),
    {
        self.chasing = true;
    }

    pub fn end_pass(&mut self)
        ensures
            *final(self) == (SeekController { chasing: false, ..*old(self) }),
    {
        self.chasing = false;
    }

    /// Consume the pending request: clears dirty and returns the target.
    pub fn take_target(&mut self) -> (t: u32)
        ensures
            t == old(self).target,
            *final(self) == (SeekController { dirty: false, ..*old(self) }),
    {
        self.dirty = false;
        self.target
    }

    /// A newer request landed mid-pass: abandon the current chase.
    pub fn is_dirty(&self) -> (b: bool)
        ensures
            b == self.dirty,
    {
        self.dirty
    }

    pub fn is_cancelled(&self) -> (b: bool)
        ensures
            b == self.cancel,
    {
        self.cancel
    }

    /// Consume a pending resume-on-landing, if one was requested.
    pub fn take_resume(&mut self) -> (b: bool)
        ensures
            b == old(self).resume,
            *final(self) == (SeekController { resume: false, ..*old(self) }),
    {
        let b = self.resume;
        self.resume = false;
        b
    }
}

// ---------------------------------------------------------------------
// Where a seek starts from
// ---------------------------------------------------------------------

/// Where a chase starts from.
#[derive(Debug, Clone, Copy, PartialEq, Eq, Structural)]
pub enum SeekStart {
    /// The rewind ring's snapshot at a tick.
    Ring(u32),
    /// The keyframe store's snapshot at a tick.
    Store(u32),
    /// A fresh boot, at tick 0.
    Boot,
    /// Where the link stands.
    Here,
}

/// The later of two finds; the store's on a tie.
pub open spec fn later<S>(ring: Option<(u32, S)>, store: Option<(u32, S)>) -> Option<SeekStart> {
    match (ring, store) {
        (Some(r), Some(s)) => if r.0 > s.0 {
            Some(SeekStart::Ring(r.0))
        } else {
            Some(SeekStart::Store(s.0))
        },
        (Some(r), None) => Some(SeekStart::Ring(r.0)),
        (None, Some(s)) => Some(SeekStart::Store(s.0)),
        (None, None) => None,
    }
}

/// Where a chase of `target` from `cur` starts: going back, the latest
/// snapshot not after the target, or the boot where there is none; going
/// forward, a snapshot only where it is ahead of the link.
pub open spec fn seek_start<S>(
    target: u32,
    cur: u32,
    ring: Seq<(u32, S)>,
    store: Seq<(u32, S)>,
) -> SeekStart {
    if target < cur {
        match later(best_upto(ring, target), best_upto(store, target)) {
            Some(s) => s,
            None => SeekStart::Boot,
        }
    } else {
        match later(best_between(ring, cur, target), best_between(store, cur, target)) {
            Some(s) => s,
            None => SeekStart::Here,
        }
    }
}

fn pick_later<S>(ring: Option<&(u32, S)>, store: Option<&(u32, S)>) -> (r: Option<SeekStart>)
    ensures
        r == later(
            match ring {
                Some(x) => Some(*x),
                None => None,
            },
            match store {
                Some(x) => Some(*x),
                None => None,
            },
        ),
{
    match (ring, store) {
        (Some(r), Some(s)) => if r.0 > s.0 {
            Some(SeekStart::Ring(r.0))
        } else {
            Some(SeekStart::Store(s.0))
        },
        (Some(r), None) => Some(SeekStart::Ring(r.0)),
        (None, Some(s)) => Some(SeekStart::Store(s.0)),
        (None, None) => None,
    }
}

pub fn plan_seek<S>(
    target: u32,
    cur: u32,
    ring: &RewindRing<S>,
    store: &SnapshotStore<S>,
) -> (start: SeekStart)
    ensures
        start == seek_start(target, cur, ring.entries@, store.entries@),
{
    if target < cur {
        match pick_later(ring.best_at_or_before(target), store.best_at_or_before(target)) {
            Some(s) => s,
            None => SeekStart::Boot,
        }
    } else {
        match pick_later(ring.best_in_range(cur, target), store.best_in_range(cur, target)) {
            Some(s) => s,
            None => SeekStart::Here,
        }
    }
}

/// The tick a chase starts at.
pub open spec fn start_tick(start: SeekStart, cur: u32) -> u32 {
    match start {
        SeekStart::Ring(t) => t,
        SeekStart::Store(t) => t,
        SeekStart::Boot => 0,
        SeekStart::Here => cur,
    }
}

/// A chase never starts after its target, and going forward never before where
/// the link stands: stepping forward always reaches it.
pub proof fn law_chases_start_before_their_target<S>(
    target: u32,
    cur: u32,
    ring: Seq<(u32, S)>,
    store: Seq<(u32, S)>,
)
    requires
        crate::session::playback::ticks::ascending(ring),
        crate::session::playback::ticks::ascending(store),
    ensures
        start_tick(seek_start(target, cur, ring, store), cur) <= target,
        target >= cur ==> start_tick(seek_start(target, cur, ring, store), cur) >= cur,
{
    crate::session::playback::engine::law_best_upto_is_the_latest(ring, target);
    crate::session::playback::engine::law_best_upto_is_the_latest(store, target);
}

// ---------------------------------------------------------------------
// The worker
// ---------------------------------------------------------------------

/// What the seek worker is at.
#[derive(Debug, Clone, Copy, PartialEq, Eq, Structural)]
pub enum SeekPhase {
    /// Waiting for a request.
    Idle,
    /// A snapshot is being loaded on the way to `target`.
    Loading { target: u32, tick: u32 },
    /// Stepping towards `target`; `landing` is the last tick captured on the
    /// way.
    Chasing { target: u32, landing: Option<u32> },
    /// Shut down.
    Stopped,
}

/// What has happened since the worker last decided.
#[derive(Debug, Clone, Copy, PartialEq, Eq, Structural)]
pub enum SeekEvent {
    /// Nothing in particular.
    Polled,
    /// The snapshot is loaded, or the link booted again.
    Loaded,
    /// It could not be.
    LoadFailed,
    /// The link ran one tick, and was captured there where that worked.
    Stepped { captured: Option<u32> },
    /// There is no further input to run.
    StreamEnded,
}

/// What the worker is to do.
#[derive(Debug, Clone, Copy, PartialEq, Eq, Structural)]
pub enum SeekAction {
    /// Wait for a request.
    Wait,
    /// Exit for good.
    Exit,
    /// Load from here, having put a snapshot into the ring where it is one.
    Load(SeekStart),
    /// Run one tick and capture it.
    Step,
    /// The pass is over: purge the fast-forward audio of a catch-up run where
    /// `purge` says so, show the snapshot of `publish` where there is one, and
    /// let playback go on where `resume` says so.
    Finish { purge: bool, publish: Option<u32>, resume: bool },
}

/// The worker's state and the shared state after a decision, and the decision.
pub struct SeekOutcome {
    pub phase: SeekPhase,
    pub ctrl: SeekController,
    pub anchor: u32,
    pub action: SeekAction,
}

/// The end of a pass. Playback goes on only where no newer request came in.
pub open spec fn pass_over(
    ctrl: SeekController,
    anchor: u32,
    purge: bool,
    publish: Option<u32>,
) -> SeekOutcome {
    let ended = SeekController { chasing: false, ..ctrl };
    SeekOutcome {
        phase: SeekPhase::Idle,
        ctrl: if ended.dirty {
            ended
        } else {
            SeekController { resume: false, ..ended }
        },
        anchor,
        action: SeekAction::Finish { purge, publish, resume: !ended.dirty && ended.resume },
    }
}

/// One step of a chase: done at the target, given up on shutdown, planned anew
/// where a newer request came in.
pub open spec fn chase<S>(
    ctrl: SeekController,
    anchor: u32,
    target: u32,
    landing: Option<u32>,
    cur: u32,
    ring: Seq<(u32, S)>,
    store: Seq<(u32, S)>,
) -> SeekOutcome {
    if cur >= target {
        pass_over(ctrl, anchor, true, landing)
    } else if ctrl.cancel {
        SeekOutcome {
            phase: SeekPhase::Stopped,
            ctrl: SeekController { chasing: false, ..ctrl },
            anchor,
            action: SeekAction::Exit,
        }
    } else if ctrl.dirty {
        planned(ctrl, Some(cur), ring, store)
    } else {
        SeekOutcome {
            phase: SeekPhase::Chasing { target, landing },
            ctrl,
            anchor,
            action: SeekAction::Step,
        }
    }
}

/// A request taken up: the ring is anchored at its target, and the chase starts
/// from the best place. While the link still boots the request is dropped.
pub open spec fn planned<S>(
    ctrl: SeekController,
    cur: Option<u32>,
    ring: Seq<(u32, S)>,
    store: Seq<(u32, S)>,
) -> SeekOutcome {
    let target = ctrl.target;
    let taken = SeekController { dirty: false, ..ctrl };
    match cur {
        None => pass_over(taken, target, false, None),
        Some(cur) => match seek_start(target, cur, ring, store) {
            SeekStart::Here => if cur >= target {
                pass_over(taken, target, true, None)
            } else if taken.cancel {
                SeekOutcome {
                    phase: SeekPhase::Stopped,
                    ctrl: SeekController { chasing: false, ..taken },
                    anchor: target,
                    action: SeekAction::Exit,
                }
            } else {
                SeekOutcome {
                    phase: SeekPhase::Chasing { target, landing: None },
                    ctrl: taken,
                    anchor: target,
                    action: SeekAction::Step,
                }
            },
            start => SeekOutcome {
                phase: SeekPhase::Loading { target, tick: start_tick(start, cur) },
                ctrl: taken,
                anchor: target,
                action: SeekAction::Load(start),
            },
        },
    }
}

/// What the worker decides.
pub open spec fn seek_step<S>(
    phase: SeekPhase,
    ctrl: SeekController,
    anchor: u32,
    event: SeekEvent,
    cur: Option<u32>,
    ring: Seq<(u32, S)>,
    store: Seq<(u32, S)>,
) -> SeekOutcome {
    match phase {
        SeekPhase::Idle => if ctrl.cancel {
            SeekOutcome { phase: SeekPhase::Stopped, ctrl, anchor, action: SeekAction::Exit }
        } else if ctrl.dirty {
            planned(SeekController { chasing: true, ..ctrl }, cur, ring, store)
        } else {
            SeekOutcome { phase, ctrl, anchor, action: SeekAction::Wait }
        },
        SeekPhase::Loading { target, tick } => if event == SeekEvent::LoadFailed || cur is None {
            pass_over(ctrl, anchor, false, None)
        } else if tick >= target {
            pass_over(ctrl, anchor, false, Some(tick))
        } else {
            chase(ctrl, anchor, target, None, cur->Some_0, ring, store)
        },
        SeekPhase::Chasing { target, landing } => {
            let landing = match event {
                SeekEvent::Stepped { captured: Some(t) } => Some(t),
                _ => landing,
            };
            if event == SeekEvent::StreamEnded || cur is None {
                pass_over(ctrl, anchor, true, landing)
            } else {
                chase(ctrl, anchor, target, landing, cur->Some_0, ring, store)
            }
        },
        SeekPhase::Stopped => {
            SeekOutcome { phase, ctrl, anchor, action: SeekAction::Exit }
        },
    }
}

/// The worker that chases seek targets on the playback link.
#[derive(Debug, Clone, Copy, PartialEq, Eq, Structural)]
pub struct SeekWorker {
    pub phase: SeekPhase,
}

impl SeekWorker {
    pub fn new() -> (w: SeekWorker)
        ensures
            w.phase == SeekPhase::Idle,
    {
        SeekWorker { phase: SeekPhase::Idle }
    }

    fn end_of_pass(&mut self, ctrl: &mut SeekController, purge: bool, publish: Option<u32>) -> (a:
        SeekAction)
        ensures
            ({
                let o = pass_over(*old(ctrl), 0, purge, publish);
                final(self).phase == o.phase && *final(ctrl) == o.ctrl && a == o.action
            }),
    {
        ctrl.end_pass();
        self.phase = SeekPhase::Idle;
        let resume = !ctrl.is_dirty() && ctrl.take_resume();
        SeekAction::Finish { purge, publish, resume }
    }

    fn plan<S>(
        &mut self,
        ctrl: &mut SeekController,
        cur: Option<u32>,
        ring: &mut RewindRing<S>,
        store: &SnapshotStore<S>,
    ) -> (a: SeekAction)
        ensures
            ({
                let o = planned(*old(ctrl), cur, old(ring).entries@, store.entries@);
                &&& final(self).phase == o.phase
                &&& *final(ctrl) == o.ctrl
                &&& a == o.action
                &&& *final(ring) == (RewindRing { anchor: o.anchor, ..*old(ring) })
            }),
    {
        let target: u32 = ctrl.take_target();
        ring.set_anchor(target);
        match cur {
            None => self.end_of_pass(ctrl, false, None),
            Some(cur) => {
                let start = plan_seek(target, cur, ring, store);
                match start {
                    SeekStart::Here => {
                        if cur >= target {
                            self.end_of_pass(ctrl, true, None)
                        } else if ctrl.is_cancelled() {
                            ctrl.end_pass();
                            self.phase = SeekPhase::Stopped;
                            SeekAction::Exit
                        } else {
                            self.phase = SeekPhase::Chasing { target, landing: None };
                            SeekAction::Step
                        }
                    },
                    SeekStart::Ring(t) => {
                        self.phase = SeekPhase::Loading { target, tick: t };
                        SeekAction::Load(start)
                    },
                    SeekStart::Store(t) => {
                        self.phase = SeekPhase::Loading { target, tick: t };
                        SeekAction::Load(start)
                    },
                    SeekStart::Boot => {
                        self.phase = SeekPhase::Loading { target, tick: 0 };
                        SeekAction::Load(start)
                    },
                }
            },
        }
    }

    /// Decide what to do, given what has happened and where the link stands
    /// (`None` while it still boots).
    pub fn next<S>(
        &mut self,
        ctrl: &mut SeekController,
        event: SeekEvent,
        cur: Option<u32>,
        ring: &mut RewindRing<S>,
        store: &SnapshotStore<S>,
    ) -> (a: SeekAction)
        ensures
            ({
                let o = seek_step(
                    old(self).phase,
                    *old(ctrl),
                    old(ring).anchor,
                    event,
                    cur,
                    old(ring).entries@,
                    store.entries@,
                );
                &&& final(self).phase == o.phase
                &&& *final(ctrl) == o.ctrl
                &&& a == o.action
                &&& *final(ring) == (RewindRing { anchor: o.anchor, ..*old(ring) })
            }),
    {
        match self.phase {
            SeekPhase::Idle => match ctrl.wait_for_request() {
                None => SeekAction::Wait,
                Some(false) => {
                    self.phase = SeekPhase::Stopped;
                    SeekAction::Exit
                },
                Some(true) => {
                    ctrl.begin_pass();
                    self.plan(ctrl, cur, ring, store)
                },
            },
            SeekPhase::Loading { target, tick } => match cur {
                None => self.end_of_pass(ctrl, false, None),
                Some(at) => {
                    if event == SeekEvent::LoadFailed {
                        self.end_of_pass(ctrl, false, None)
                    } else if tick >= target {
                        self.end_of_pass(ctrl, false, Some(tick))
                    } else {
                        self.chase_on(ctrl, target, None, at, ring, store)
                    }
                },
            },
            SeekPhase::Chasing { target, landing } => {
                let landing: Option<u32> = match event {
                    SeekEvent::Stepped { captured: Some(t) } => Some(t),
                    _ => landing,
                };
                match cur {
                    None => self.end_of_pass(ctrl, true, landing),
                    Some(at) => {
                        if event == SeekEvent::StreamEnded {
                            self.end_of_pass(ctrl, true, landing)
                        } else {
                            self.chase_on(ctrl, target, landing, at, ring, store)
                        }
                    },
                }
            },
            SeekPhase::Stopped => SeekAction::Exit,
        }
    }

    fn chase_on<S>(
        &mut self,
        ctrl: &mut SeekController,
        target: u32,
        landing: Option<u32>,
        cur: u32,
        ring: &mut RewindRing<S>,
        store: &SnapshotStore<S>,
    ) -> (a: SeekAction)
        ensures
            ({
                let o = chase(
                    *old(ctrl),
                    old(ring).anchor,
                    target,
                    landing,
                    cur,
                    old(ring).entries@,
                    store.entries@,
                );
                &&& final(self).phase == o.phase
                &&& *final(ctrl) == o.ctrl
                &&& a == o.action
                &&& *final(ring) == (RewindRing { anchor: o.anchor, ..*old(ring) })
            }),
    {
        if cur >= target {
            self.end_of_pass(ctrl, true, landing)
        } else if ctrl.is_cancelled() {
            ctrl.end_pass();
            self.phase = SeekPhase::Stopped;
            SeekAction::Exit
        } else if ctrl.is_dirty() {
            self.plan(ctrl, Some(cur), ring, store)
        } else {
            self.phase = SeekPhase::Chasing { target, landing };
            SeekAction::Step
        }
    }
}

/// The newest request wins: after two, the worker takes up the second.
pub proof fn law_the_newest_request_wins<S>(
    ctrl: SeekController,
    first: u32,
    second: u32,
    again: bool,
    cur: u32,
    ring: Seq<(u32, S)>,
    store: Seq<(u32, S)>,
)
    requires
        !ctrl.cancel,
    ensures
        ({
            let a = SeekController { target: first, dirty: true, ..ctrl };
            let b = SeekController { target: second, resume: again, dirty: true, ..a };
            let o = seek_step(SeekPhase::Idle, b, 0, SeekEvent::Polled, Some(cur), ring, store);
            o.anchor == second && !o.ctrl.dirty
        }),
{
}

/// Playback is let go on once per request that asked for it, and not while a
/// newer request is outstanding.
pub proof fn law_resuming_is_asked_for_and_happens_once(
    ctrl: SeekController,
    anchor: u32,
    purge: bool,
    publish: Option<u32>,
)
    ensures
        ({
            let o = pass_over(ctrl, anchor, purge, publish);
            let again = pass_over(o.ctrl, anchor, purge, publish);
            &&& o.action->resume ==> ctrl.resume && !ctrl.dirty
            &&& o.action->resume ==> !again.action->resume
        }),
{
}

} // verus!
