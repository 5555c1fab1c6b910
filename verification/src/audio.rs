//! Audio: the queue that replay playback fills, the stream that drains it, and
//! the depth of the output sink.
use vstd::prelude::*;
use std::collections::VecDeque;
use crate::session::playback::drive::effective_speed;
use crate::session::playback::engine::MIN_SPEED;
use crate::session::{not_positive, SharedSession};

pub mod laws;

verus! {

/// One frame: left and right.
pub type AudioFrame = [i16; 2];

/// Steady-state sink depth: about 64 ms at 48 kHz. Absorbs a full display gap
/// plus a catch-up burst plus message jitter without underrun.
pub const TARGET_QUEUED_FRAMES: u32 = 3072;

/// Don't bother posting chunks smaller than this (one render quantum).
pub const MIN_CHUNK_FRAMES: u32 = 128;

// ---------------------------------------------------------------------
// The replay queue
// ---------------------------------------------------------------------

/// A fraction `1/parts` of a second at a sample rate, in whole frames, rounded
/// up.
pub open spec fn frames_of(sample_rate: u32, parts: nat) -> nat {
    ((sample_rate + parts - 1) / parts as int) as nat
}

/// Replay audio is produced by the playback drive after each emulated tick. The
/// host callback only drains this short queue, so a snapshot capture or seek
/// cannot turn into a callback-sized hole in the output.
#[derive(Debug)]
pub struct ReplayAudioQueue {
    pub frames: VecDeque<AudioFrame>,
    pub generation: u64,
    /// How much to hold before the first frame goes out: a twentieth of a
    /// second.
    pub prime_frames: usize,
    /// Most frames held: a quarter of a second.
    pub max_frames: usize,
    pub sample_rate: u32,
}

/// The last `n` of some frames.
pub open spec fn last_frames(s: Seq<AudioFrame>, n: nat) -> Seq<AudioFrame> {
    if s.len() <= n {
        s
    } else {
        s.skip(s.len() - n)
    }
}

/// A prime that is at least one frame, and no more than fit.
pub open spec fn fitting_prime(prime_frames: usize, max_frames: usize) -> usize {
    if prime_frames < 1 {
        1
    } else if prime_frames > max_frames {
        max_frames
    } else {
        prime_frames
    }
}

impl ReplayAudioQueue {
    /// Never more than the cap, and a prime that can be reached.
    pub open spec fn wf(&self) -> bool {
        1 <= self.prime_frames <= self.max_frames && self.frames@.len() <= self.max_frames
    }

    pub fn new(sample_rate: u32) -> (q: ReplayAudioQueue)
        ensures
            q.wf(),
            q.frames@ == Seq::<AudioFrame>::empty(),
            q.generation == 0,
            q.sample_rate == sample_rate,
            q.prime_frames == (if sample_rate == 0 {
                1
            } else {
                frames_of(sample_rate, 20)
            }),
            q.max_frames == (if sample_rate == 0 {
                1
            } else {
                frames_of(sample_rate, 4)
            }),
    {
        let twentieth: u64 = (sample_rate as u64 + 19) / 20;
        let quarter: u64 = (sample_rate as u64 + 3) / 4;
        let prime_frames: usize = if twentieth < 1 {
            1
        } else {
            twentieth as usize
        };
        let max_frames: usize = if (quarter as usize) < prime_frames {
            prime_frames
        } else {
            quarter as usize
        };
        ReplayAudioQueue {
            frames: VecDeque::new(),
            generation: 0,
            prime_frames,
            max_frames,
            sample_rate,
        }
    }

    /// Drop everything already published. The generation makes a producer that
    /// was concurrently resampling stale audio discard its result instead of
    /// appending it after the reset.
    pub fn reset(&mut self) -> (generation: u64)
        requires
            old(self).wf(),
        ensures
            final(self).wf(),
            final(self).frames@ == Seq::<AudioFrame>::empty(),
            final(self).generation as int == (old(self).generation + 1) % 0x1_0000_0000_0000_0000,
            generation == final(self).generation,
            final(self).prime_frames == old(self).prime_frames,
            final(self).max_frames == old(self).max_frames,
            final(self).sample_rate == old(self).sample_rate,
    {
        self.frames.clear();
        self.generation = self.generation.wrapping_add(1);
        self.generation
    }

    /// Drop everything already published, and hold this many frames from now
    /// on before the first goes out (at least one, and no more than fit): at
    /// very slow playback one emulated frame produces more audio than the
    /// usual prime.
    pub fn reset_for_rate(&mut self, prime_frames: usize) -> (generation: u64)
        requires
            old(self).wf(),
        ensures
            final(self).wf(),
            final(self).frames@ == Seq::<AudioFrame>::empty(),
            final(self).generation as int == (old(self).generation + 1) % 0x1_0000_0000_0000_0000,
            generation == final(self).generation,
            final(self).prime_frames == fitting_prime(prime_frames, old(self).max_frames),
            final(self).max_frames == old(self).max_frames,
            final(self).sample_rate == old(self).sample_rate,
    {
        let generation: u64 = self.reset();
        self.prime_frames = if prime_frames < 1 {
            1
        } else if prime_frames > self.max_frames {
            self.max_frames
        } else {
            prime_frames
        };
        generation
    }

    pub fn generation(&self) -> (g: u64)
        ensures
            g == self.generation,
    {
        self.generation
    }

    /// Publish frames made in a generation. Frames of an earlier generation
    /// are refused; past the cap the oldest go.
    pub fn push(&mut self, generation: u64, frames: &[AudioFrame]) -> (taken: bool)
        requires
            old(self).wf(),
        ensures
            final(self).wf(),
            taken == (generation == old(self).generation),
            final(self).frames@ == (if taken {
                last_frames(old(self).frames@ + frames@, old(self).max_frames as nat)
            } else {
                old(self).frames@
            }),
            final(self).generation == old(self).generation,
            final(self).prime_frames == old(self).prime_frames,
            final(self).max_frames == old(self).max_frames,
            final(self).sample_rate == old(self).sample_rate,
    {
        if self.generation != generation {
            return false;
        }
        let max: usize = self.max_frames;
        let mut i: usize = 0;
        let ghost before = self.frames@;
        proof {
            assert(before + frames@.take(0) =~= before);
        }
        while i < frames.len()
            invariant
                i <= frames@.len(),
                max == self.max_frames,
                self.wf(),
                self.frames@ == last_frames(before + frames@.take(i as int), max as nat),
                self.generation == old(self).generation,
                self.prime_frames == old(self).prime_frames,
                self.max_frames == old(self).max_frames,
                self.sample_rate == old(self).sample_rate,
            decreases frames@.len() - i,
        {
            let ghost now = self.frames@;
            if self.frames.len() >= max {
                let oldest = self.frames.pop_front();
            }
            self.frames.push_back(frames[i]);
            proof {
                let all = before + frames@.take(i as int);
                let more = before + frames@.take(i + 1);
                assert(more =~= all.push(frames@[i as int]));
                assert(self.frames@ =~= last_frames(more, max as nat));
            }
            i = i + 1;
        }
        proof {
            assert(frames@.take(i as int) =~= frames@);
        }
        true
    }

    /// Whether the queue still has to fill before anything goes out.
    pub fn needs_prebuffer(&self) -> (b: bool)
        ensures
            b == (self.sample_rate != 0 && self.frames@.len() < self.prime_frames),
    {
        self.sample_rate != 0 && self.frames.len() < self.prime_frames
    }
}

// ---------------------------------------------------------------------
// The stream
// ---------------------------------------------------------------------

/// Callback-facing half of replay audio. All it can do is consume published
/// frames.
#[derive(Debug, Clone, Copy, PartialEq, Eq)]
pub struct ReplayStream {
    pub generation: u64,
    pub primed: bool,
    pub silent: bool,
    /// Whose sound plays, and how fast.
    pub config: (usize, u32),
}

/// Whose sound plays, and how fast.
pub open spec fn stream_config(shared: SharedSession) -> (usize, u32) {
    (shared.view_player, effective_speed(shared.speed))
}

/// How many frames go out to a callback that asks for `want`: none when the
/// setting changed, when playback stands still, or while the queue fills up
/// again; as many as there are otherwise.
pub open spec fn frames_out(
    stream: ReplayStream,
    queue: ReplayAudioQueue,
    shared: SharedSession,
    want: nat,
) -> nat {
    if stream_config(shared) != stream.config || shared.paused || not_positive(
        shared.fps_target,
    ) {
        0
    } else if (queue.generation != stream.generation || !stream.primed) && queue.frames@.len()
        < queue.prime_frames {
        0
    } else if queue.frames@.len() < want {
        queue.frames@.len()
    } else {
        want
    }
}

/// Whether a callback drops everything published: when the setting changed,
/// and when playback comes to a stand.
pub open spec fn drops_all(stream: ReplayStream, shared: SharedSession) -> bool {
    stream_config(shared) != stream.config || ((shared.paused || not_positive(shared.fps_target))
        && !stream.silent)
}

impl ReplayStream {
    pub fn new(queue: &ReplayAudioQueue, shared: &SharedSession) -> (s: ReplayStream)
        ensures
            s == (ReplayStream {
                generation: queue.generation,
                primed: false,
                silent: true,
                config: stream_config(*shared),
            }),
    {
        ReplayStream {
            generation: queue.generation(),
            primed: false,
            silent: true,
            config: current_config(shared),
        }
    }

    /// Take frames for a callback that asks for `want` of them.
    pub fn fill(
        &mut self,
        queue: &mut ReplayAudioQueue,
        shared: &SharedSession,
        want: usize,
    ) -> (out: Vec<AudioFrame>)
        requires
            old(queue).wf(),
        ensures
            final(queue).wf(),
            final(queue).prime_frames == old(queue).prime_frames,
            final(queue).max_frames == old(queue).max_frames,
            final(queue).sample_rate == old(queue).sample_rate,
            ({
                let n = frames_out(*old(self), *old(queue), *shared, want as nat);
                let changed = stream_config(*shared) != old(self).config;
                let still = shared.paused || not_positive(shared.fps_target);
                &&& out@ == old(queue).frames@.take(n as int)
                &&& if drops_all(*old(self), *shared) {
                    &&& final(queue).frames@.len() == 0
                    &&& final(queue).generation as int == (old(queue).generation + 1)
                        % 0x1_0000_0000_0000_0000
                } else {
                    &&& final(queue).frames@ == old(queue).frames@.skip(n as int)
                    &&& final(queue).generation == old(queue).generation
                }
                &&& final(self).config == stream_config(*shared)
                &&& final(self).generation == (if still && !changed && old(self).silent {
                    old(self).generation
                } else {
                    final(queue).generation
                })
                &&& final(self).silent == (if changed {
                    old(self).silent
                } else {
                    still
                })
                &&& final(self).primed == (!changed && !still && n == want && (n > 0
                    || old(queue).frames@.len() >= old(queue).prime_frames || (old(self).primed
                    && old(queue).generation == old(self).generation)))
            }),
    {
        let mut out: Vec<AudioFrame> = Vec::new();
        proof {
            assert(queue.frames@.take(0) =~= Seq::<AudioFrame>::empty());
            assert(queue.frames@.skip(0) =~= queue.frames@);
        }
        let config = current_config(shared);
        if config.0 != self.config.0 || config.1 != self.config.1 {
            self.config = config;
            self.generation = queue.reset();
            self.primed = false;
            return out;
        }
        if shared.paused || !shared.is_running() {
            if !self.silent {
                self.generation = queue.reset();
                self.silent = true;
            }
            self.primed = false;
            return out;
        }
        self.silent = false;
        if queue.generation() != self.generation {
            self.generation = queue.generation();
            self.primed = false;
        }
        if !self.primed {
            if queue.frames.len() < queue.prime_frames {
                return out;
            }
            self.primed = true;
        }
        let available: usize = if queue.frames.len() < want {
            queue.frames.len()
        } else {
            want
        };
        let ghost all = queue.frames@;
        let mut i: usize = 0;
        while i < available
            invariant
                i <= available <= all.len(),
                queue.frames@ == all.skip(i as int),
                out@ == all.take(i as int),
                queue.generation == old(queue).generation,
                queue.prime_frames == old(queue).prime_frames,
                queue.max_frames == old(queue).max_frames,
                queue.sample_rate == old(queue).sample_rate,
            decreases available - i,
        {
            match queue.frames.pop_front() {
                Some(f) => {
                    out.push(f);
                },
                None => {},
            }
            proof {
                assert(all.skip(i as int).skip(1) =~= all.skip(i + 1));
                assert(queue.frames@ =~= all.skip(i + 1));
                assert(all.take(i + 1) =~= all.take(i as int).push(all[i as int]));
            }
            i = i + 1;
        }
        if available < want {
            self.primed = false;
        }
        out
    }
}

fn current_config(shared: &SharedSession) -> (c: (usize, u32))
    ensures
        c == stream_config(*shared),
{
    (
        shared.view_player,
        if shared.speed < MIN_SPEED {
            MIN_SPEED
        } else {
            shared.speed
        },
    )
}

/// Audio made before a reset is refused after it.
pub proof fn law_stale_audio_is_refused(before: u64, after: u64)
    requires
        after as int == (before + 1) % 0x1_0000_0000_0000_0000,
    ensures
        before != after,
{
}

// ---------------------------------------------------------------------
// The producer
// ---------------------------------------------------------------------

/// Drive-side half of replay audio: when to start resampling afresh, and whose
/// sound to resample.
#[derive(Debug, Clone, Copy, PartialEq, Eq)]
pub struct ReplayAudioProducer {
    pub generation: u64,
    pub config: Option<(usize, u32)>,
    pub discard_source: bool,
}

/// What to do with one tick's sound.
#[derive(Debug, Clone, Copy, PartialEq, Eq, Structural)]
pub struct ProduceStep {
    /// Start resampling afresh.
    pub reset_resampler: bool,
    /// Throw away every side's sound instead of resampling any.
    pub discard: bool,
    /// Whose sound to resample.
    pub player: usize,
}

impl ReplayAudioProducer {
    pub fn new(queue: &ReplayAudioQueue) -> (p: ReplayAudioProducer)
        ensures
            p == (ReplayAudioProducer {
                generation: queue.generation,
                config: None,
                discard_source: true,
            }),
    {
        ReplayAudioProducer { generation: queue.generation(), config: None, discard_source: true }
    }

    /// Drop everything published and start afresh; the sound under way is
    /// thrown away.
    pub fn reset(&mut self, queue: &mut ReplayAudioQueue)
        requires
            old(queue).wf(),
        ensures
            final(queue).wf(),
            final(queue).frames@.len() == 0,
            final(queue).generation as int == (old(queue).generation + 1)
                % 0x1_0000_0000_0000_0000,
            final(queue).prime_frames == old(queue).prime_frames,
            final(queue).max_frames == old(queue).max_frames,
            final(queue).sample_rate == old(queue).sample_rate,
            *final(self) == (ReplayAudioProducer {
                generation: final(queue).generation,
                config: old(self).config,
                discard_source: true,
            }),
    {
        self.generation = queue.reset();
        self.discard_source = true;
    }

    /// Decide what to do with one tick's sound. A new setting empties the
    /// queue and primes it for the rate; a queue that was emptied elsewhere is
    /// noticed. Either way resampling starts afresh and this tick's sound is
    /// thrown away.
    pub fn publish(
        &mut self,
        queue: &mut ReplayAudioQueue,
        player: usize,
        num_players: usize,
        speed_percent: u32,
        prime_frames: usize,
    ) -> (step: ProduceStep)
        requires
            old(queue).wf(),
            num_players >= 1,
        ensures
            final(queue).wf(),
            final(queue).max_frames == old(queue).max_frames,
            final(queue).sample_rate == old(queue).sample_rate,
            ({
                let whose = if player < num_players {
                    player
                } else {
                    (num_players - 1) as usize
                };
                let changed = old(self).config != Some((whose, speed_percent));
                let stale = !changed && old(queue).generation != old(self).generation;
                &&& step.player == whose
                &&& step.reset_resampler == (changed || stale)
                &&& step.discard == (changed || stale || old(self).discard_source || old(
                    queue,
                ).sample_rate == 0)
                &&& *final(self) == (ReplayAudioProducer {
                    generation: final(queue).generation,
                    config: Some((whose, speed_percent)),
                    discard_source: false,
                })
                &&& if changed {
                    &&& final(queue).frames@.len() == 0
                    &&& final(queue).generation as int == (old(queue).generation + 1)
                        % 0x1_0000_0000_0000_0000
                    &&& final(queue).prime_frames == fitting_prime(
                        prime_frames,
                        old(queue).max_frames,
                    )
                } else {
                    *final(queue) == *old(queue)
                }
            }),
    {
        let whose: usize = if player < num_players {
            player
        } else {
            num_players - 1
        };
        let changed = match self.config {
            Some(c) => c.0 != whose || c.1 != speed_percent,
            None => true,
        };
        let mut reset_resampler = false;
        if changed {
            self.config = Some((whose, speed_percent));
            self.generation = queue.reset_for_rate(prime_frames);
            reset_resampler = true;
            self.discard_source = true;
        }
        if queue.generation() != self.generation {
            self.generation = queue.generation();
            reset_resampler = true;
            self.discard_source = true;
        }
        let discard = self.discard_source || queue.sample_rate == 0;
        self.discard_source = false;
        ProduceStep { reset_resampler, discard, player: whose }
    }
}

// ---------------------------------------------------------------------
// The sink
// ---------------------------------------------------------------------

/// What is known of the output sink's depth: its last report, and what was
/// sent since.
#[derive(Debug, Clone, Copy, PartialEq, Eq, Structural)]
pub struct SinkDepth {
    pub reported_queued: u32,
    pub sent_since_report: u32,
}

impl SinkDepth {
    pub fn new() -> (d: SinkDepth)
        ensures
            d == (SinkDepth { reported_queued: 0, sent_since_report: 0 }),
    {
        SinkDepth { reported_queued: 0, sent_since_report: 0 }
    }

    /// The sink reported its depth: what was sent before counts no more.
    pub fn report(&mut self, queued: u32)
        ensures
            *final(self) == (SinkDepth { reported_queued: queued, sent_since_report: 0 }),
    {
        self.reported_queued = queued;
        self.sent_since_report = 0;
    }

    /// How many frames to send to top the sink up to its target; none where
    /// that is less than a chunk. The estimate errs high (frames the sink has
    /// consumed since reporting still count), which is the safe direction.
    pub fn deficit(&self) -> (n: u32)
        ensures
            n == (if self.reported_queued + self.sent_since_report + MIN_CHUNK_FRAMES
                > TARGET_QUEUED_FRAMES {
                0
            } else {
                TARGET_QUEUED_FRAMES - self.reported_queued - self.sent_since_report
            }),
    {
        let estimate: u64 = self.reported_queued as u64 + self.sent_since_report as u64;
        if estimate + MIN_CHUNK_FRAMES as u64 > TARGET_QUEUED_FRAMES as u64 {
            0
        } else {
            TARGET_QUEUED_FRAMES - estimate as u32
        }
    }

    /// Frames were sent, no more than were missing.
    pub fn sent(&mut self, n: u32)
        requires
            old(self).reported_queued + old(self).sent_since_report + n <= TARGET_QUEUED_FRAMES,
        ensures
            *final(self) == (SinkDepth {
                reported_queued: old(self).reported_queued,
                sent_since_report: (old(self).sent_since_report + n) as u32,
            }),
    {
        self.sent_since_report = self.sent_since_report + n;
    }
}

/// Topping up never overfills the sink, and leaves it short of its target by
/// less than a chunk.
pub proof fn law_topping_up_reaches_the_target(reported: nat, sent: nat, n: nat)
    requires
        n == if reported + sent + MIN_CHUNK_FRAMES > TARGET_QUEUED_FRAMES {
            0
        } else {
            (TARGET_QUEUED_FRAMES - reported - sent) as nat
        },
    ensures
        n > 0 ==> n >= MIN_CHUNK_FRAMES && reported + sent + n == TARGET_QUEUED_FRAMES,
        n == 0 ==> reported + sent > TARGET_QUEUED_FRAMES - MIN_CHUNK_FRAMES,
{
}

} // verus!
