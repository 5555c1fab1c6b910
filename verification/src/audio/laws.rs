//! What holds of replay audio.
use vstd::prelude::*;
use crate::audio::{
    drops_all, fitting_prime, frames_of, frames_out, last_frames, stream_config, AudioFrame,
    ReplayAudioQueue, ReplayStream,
};
use crate::session::{not_positive, SharedSession};

verus! {

/// So many frames as make up a part of a second, rounded up.
pub proof fn law_parts_of_a_second_are_rounded_up(sample_rate: u32, parts: nat)
    requires
        parts >= 1,
    ensures
        frames_of(sample_rate, parts) * parts >= sample_rate,
        sample_rate > 0 ==> (frames_of(sample_rate, parts) - 1) * parts < sample_rate,
        sample_rate > 0 ==> frames_of(sample_rate, parts) >= 1,
{
    let p = parts as int;
    let n = sample_rate + p - 1;
    let q = n / p;
    assert(q * p <= n < (q + 1) * p) by (nonlinear_arith)
        requires
            q == n / p,
            p >= 1,
    ;
    assert(q >= 0) by (nonlinear_arith)
        requires
            q == n / p,
            p >= 1,
            n >= 0,
    ;
    assert((q + 1) * p == q * p + p) by (nonlinear_arith);
    assert((q - 1) * p == q * p - p) by (nonlinear_arith);
    if sample_rate > 0 {
        assert(q >= 1) by (nonlinear_arith)
            requires
                q == n / p,
                p >= 1,
                n >= p,
        ;
    }
}

/// The queue keeps the newest frames, as many as it holds, in their order: the
/// oldest go first.
pub proof fn law_the_newest_frames_are_kept(s: Seq<AudioFrame>, n: nat, i: int)
    ensures
        s.len() <= n ==> last_frames(s, n) == s,
        s.len() > n ==> last_frames(s, n).len() == n,
        s.len() > n && 0 <= i < n ==> last_frames(s, n)[n - 1 - i] == s[s.len() - 1 - i],
{
}

/// How much is buffered before anything plays is what was asked for, but at
/// least one frame and no more than the queue holds.
pub proof fn law_the_prime_fits_the_queue(prime: usize, max: usize)
    requires
        max >= 1,
    ensures
        1 <= fitting_prime(prime, max) <= max,
        1 <= prime <= max ==> fitting_prime(prime, max) == prime,
        prime > max ==> fitting_prime(prime, max) == max,
        prime == 0 ==> fitting_prime(prime, max) == 1,
{
}

/// What the audio is of: whose machine is viewed, and at what speed, which is a
/// quarter at least.
pub proof fn law_what_the_audio_is_of(shared: SharedSession)
    ensures
        stream_config(shared).0 == shared.view_player,
        shared.speed >= 25 ==> stream_config(shared).1 == shared.speed,
        shared.speed < 25 ==> stream_config(shared).1 == 25,
{
}

/// What plays: nothing while the session stands still or the audio is of
/// something else by now; nothing before enough is buffered, where playing has
/// not begun or the queue was emptied; and otherwise what is asked for, as far
/// as it is there.
pub proof fn law_what_plays(
    stream: ReplayStream,
    queue: ReplayAudioQueue,
    shared: SharedSession,
    want: nat,
)
    ensures
        ({
            let n = frames_out(stream, queue, shared, want);
            let still = shared.paused || not_positive(shared.fps_target);
            let begun = stream.primed && queue.generation == stream.generation;
            &&& n <= want && n <= queue.frames@.len()
            &&& still || stream_config(shared) != stream.config ==> n == 0
            &&& !begun && queue.frames@.len() < queue.prime_frames ==> n == 0
            &&& !still && stream_config(shared) == stream.config && (begun || queue.frames@.len()
                >= queue.prime_frames) ==> n == want || n == queue.frames@.len()
        }),
{
}

/// What is buffered is dropped when the audio is of something else by now, and
/// once when the session comes to stand still.
pub proof fn law_when_buffered_audio_is_dropped(stream: ReplayStream, shared: SharedSession)
    ensures
        stream_config(shared) != stream.config ==> drops_all(stream, shared),
        stream_config(shared) == stream.config && stream.silent ==> !drops_all(stream, shared),
        stream_config(shared) == stream.config && !stream.silent ==> (drops_all(stream, shared)
            <==> shared.paused || not_positive(shared.fps_target)),
{
}

} // verus!
