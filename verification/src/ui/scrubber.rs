//! The scrub bar. Press and drag inside the bar previews every position it
//! comes over, once each; release commits the last previewed tick. Positions
//! past the prefetch watermark clamp to it, so a click can't stall on unloaded
//! frames.
use vstd::prelude::*;

verus! {

/// A drag, if any.
#[derive(Debug, Clone, Copy, PartialEq, Eq)]
pub struct State {
    pub dragging: bool,
    /// Last tick previewed during this drag, so repeated cursor moves over the
    /// same tick stay silent and the commit lands exactly on the frame the user
    /// last previewed.
    pub last_emitted: Option<u32>,
}

/// What the pointer does. A position is the tick under the pointer, before the
/// watermark is minded.
#[derive(Debug, Clone, Copy, PartialEq, Eq)]
pub enum Pointer {
    /// Pressed: `None` where that is outside the bar.
    Pressed(Option<u32>),
    Released,
    /// Moved: `None` where the pointer is nowhere. Past either edge of the bar
    /// is its start or end.
    Moved(Option<u32>),
}

/// What comes of it.
#[derive(Debug, Clone, Copy, PartialEq, Eq)]
pub enum Scrub {
    /// Preview a tick.
    Seek(u32),
    /// Settle on a tick.
    Commit(u32),
    /// The event is the bar's, and says nothing new.
    Captured,
    /// The event is not the bar's.
    Ignored,
}

/// A position clamped to the prefetched range.
pub open spec fn reachable(tick: u32, prefetched: u32) -> u32 {
    if tick < prefetched {
        tick
    } else {
        prefetched
    }
}

/// The drag after something the pointer did, and what comes of it.
pub open spec fn scrubbed(s: State, e: Pointer, current: u32, prefetched: u32) -> (State, Scrub) {
    match e {
        Pointer::Pressed(Some(tick)) => {
            let target = reachable(tick, prefetched);
            (State { dragging: true, last_emitted: Some(target) }, Scrub::Seek(target))
        },
        Pointer::Released if s.dragging => (
            State { dragging: false, last_emitted: None },
            Scrub::Commit(
                match s.last_emitted {
                    Some(t) => t,
                    None => current,
                },
            ),
        ),
        Pointer::Moved(Some(tick)) if s.dragging => {
            let target = reachable(tick, prefetched);
            if s.last_emitted == Some(target) {
                (s, Scrub::Captured)
            } else {
                (State { last_emitted: Some(target), ..s }, Scrub::Seek(target))
            }
        },
        _ => (s, Scrub::Ignored),
    }
}

impl State {
    pub fn new() -> (s: State)
        ensures
            s == (State { dragging: false, last_emitted: None }),
    {
        State { dragging: false, last_emitted: None }
    }

    /// What comes of what the pointer does, the playback being at `current` and
    /// fetched up to `prefetched`.
    pub fn update(&mut self, event: Pointer, current: u32, prefetched: u32) -> (r: Scrub)
        ensures
            (*final(self), r) == scrubbed(*old(self), event, current, prefetched),
    {
        match event {
            Pointer::Pressed(Some(tick)) => {
                let target: u32 = if tick < prefetched {
                    tick
                } else {
                    prefetched
                };
                self.dragging = true;
                self.last_emitted = Some(target);
                Scrub::Seek(target)
            },
            Pointer::Released => {
                if !self.dragging {
                    return Scrub::Ignored;
                }
                self.dragging = false;
                let target: u32 = match self.last_emitted {
                    Some(t) => t,
                    None => current,
                };
                self.last_emitted = None;
                Scrub::Commit(target)
            },
            Pointer::Moved(Some(tick)) => {
                if !self.dragging {
                    return Scrub::Ignored;
                }
                let target: u32 = if tick < prefetched {
                    tick
                } else {
                    prefetched
                };
                match self.last_emitted {
                    Some(t) => {
                        if t == target {
                            return Scrub::Captured;
                        }
                    },
                    None => {},
                }
                self.last_emitted = Some(target);
                Scrub::Seek(target)
            },
            _ => Scrub::Ignored,
        }
    }
}

/// A release right after a preview commits what was previewed, wherever it
/// happens.
pub proof fn law_commits_land_on_the_preview(s: State, e: Pointer, current: u32, prefetched: u32)
    ensures
        ({
            let (dragged, r) = scrubbed(s, e, current, prefetched);
            r matches Scrub::Seek(t) ==> dragged.dragging ==> scrubbed(
                dragged,
                Pointer::Released,
                current,
                prefetched,
            ).1 == Scrub::Commit(t)
        }),
        scrubbed(s, e, current, prefetched).1 matches Scrub::Seek(t) ==> scrubbed(
            s,
            e,
            current,
            prefetched,
        ).0.dragging && t <= prefetched,
{
}

} // verus!
