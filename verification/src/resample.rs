//! Control logic of the sinc resampler: chunk size, the number of frames the
//! output keeps, the order in which the resampler is driven, and how the
//! resampled channels are cut back into a stereo slice.

use vstd::prelude::*;
use crate::audio::{AudioSlice, audio_slice_from_frames};

verus! {

/// Largest number of input frames handed to the resampler at once.
pub const MAX_CHUNK_SIZE: usize = 2048;

/// Input chunk size for a slice of `n_samples` frames: the frame count
/// clamped to `1..=2048`.
pub fn resample_chunk_size(n_samples: usize) -> (chunk: usize)
    ensures
        chunk == if n_samples < 1 {
            1
        } else if n_samples > MAX_CHUNK_SIZE {
            MAX_CHUNK_SIZE
        } else {
            n_samples
        },
{
    if n_samples < 1 {
        1
    } else if n_samples > MAX_CHUNK_SIZE {
        MAX_CHUNK_SIZE
    } else {
        n_samples
    }
}

/// `n_samples` frames at `input_rate` converted to `output_rate`, rounded to the
/// nearest frame (halves rounded up).
pub open spec fn output_frames(n_samples: int, input_rate: int, output_rate: int) -> int {
    (n_samples * output_rate + input_rate / 2) / input_rate
}

/// Number of frames the resampled slice keeps.
pub fn expected_output_frames(n_samples: usize, input_rate: u32, output_rate: u32) -> (frames: usize)
    requires
        input_rate > 0,
        n_samples * output_rate + input_rate / 2 <= u64::MAX,
        output_frames(n_samples as int, input_rate as int, output_rate as int) <= usize::MAX,
    ensures
        frames == output_frames(n_samples as int, input_rate as int, output_rate as int),
{
    let n = n_samples as u64;
    let scaled = n * (output_rate as u64) + (input_rate as u64) / 2;
    (scaled / (input_rate as u64)) as usize
}

/// Resampling at the same rate keeps every frame.
pub proof fn lemma_output_frames_same_rate(n_samples: int, rate: int)
    requires
        n_samples >= 0,
        rate > 0,
    ensures
        output_frames(n_samples, rate, rate) == n_samples,
{
    assert((n_samples * rate + rate / 2) / rate == n_samples) by (nonlinear_arith)
        requires
            n_samples >= 0,
            rate > 0,
    {
        assert(0 <= rate / 2 < rate);
    }
}

/// The kept frame count is the nearest whole number to the exact one: it is off
/// from `n_samples * output_rate / input_rate` by at most half a frame.
pub proof fn lemma_output_frames_nearest(n_samples: int, input_rate: int, output_rate: int)
    requires
        n_samples >= 0,
        input_rate > 0,
        output_rate >= 0,
    ensures
        output_frames(n_samples, input_rate, output_rate) * input_rate <= n_samples * output_rate
            + input_rate / 2,
        n_samples * output_rate + input_rate / 2 < (output_frames(n_samples, input_rate, output_rate)
            + 1) * input_rate,
{
    let x = n_samples * output_rate + input_rate / 2;
    let q = x / input_rate;
    assert(q * input_rate <= x && x < (q + 1) * input_rate) by (nonlinear_arith)
        requires
            input_rate > 0,
            q == x / input_rate,
    {}
}

/// Where the resampler stands between two calls.
#[derive(Debug, Clone, Copy, PartialEq, Eq, Structural)]
pub enum ResamplePhase {
    /// Whole input chunks are still being fed.
    Feeding,
    /// The input is used up; the resampler's delay line is being flushed.
    Flushing,
    /// The last flush produced nothing more.
    Stalled,
}

/// What to ask of the resampler next.
#[derive(Debug, Clone, Copy, PartialEq, Eq, Structural)]
pub enum ResampleAction {
    /// Process one full chunk of input.
    Process,
    /// Process the remaining, shorter than a chunk, input.
    ProcessPartial,
    /// Process without input to flush the delay line.
    Flush,
    /// Stop: enough output has been produced, or no more can be.
    Finish,
}

/// The next step when `remaining` input frames are left, the resampler wants
/// `frames_next` frames for a full chunk, `produced` output frames exist and
/// `needed` are wanted (the resampler's delay plus the kept frame count).
pub fn next_resample_action(
    phase: ResamplePhase,
    remaining: usize,
    frames_next: usize,
    produced: usize,
    needed: usize,
) -> (action: ResampleAction)
    ensures
        action == (match phase {
            ResamplePhase::Feeding => if remaining >= frames_next {
                ResampleAction::Process
            } else if remaining > 0 {
                ResampleAction::ProcessPartial
            } else if produced < needed {
                ResampleAction::Flush
            } else {
                ResampleAction::Finish
            },
            ResamplePhase::Flushing => if produced < needed {
                ResampleAction::Flush
            } else {
                ResampleAction::Finish
            },
            ResamplePhase::Stalled => ResampleAction::Finish,
        }),
{
    match phase {
        ResamplePhase::Feeding => {
            if remaining >= frames_next {
                ResampleAction::Process
            } else if remaining > 0 {
                ResampleAction::ProcessPartial
            } else if produced < needed {
                ResampleAction::Flush
            } else {
                ResampleAction::Finish
            }
        },
        ResamplePhase::Flushing => {
            if produced < needed {
                ResampleAction::Flush
            } else {
                ResampleAction::Finish
            }
        },
        ResamplePhase::Stalled => ResampleAction::Finish,
    }
}

/// The phase after `action` was carried out and produced `emitted` frames.
pub fn phase_after(phase: ResamplePhase, action: ResampleAction, emitted: usize) -> (next: ResamplePhase)
    ensures
        next == (match action {
            ResampleAction::Process => phase,
            ResampleAction::ProcessPartial => ResamplePhase::Flushing,
            ResampleAction::Flush => if emitted == 0 {
                ResamplePhase::Stalled
            } else {
                ResamplePhase::Flushing
            },
            ResampleAction::Finish => phase,
        }),
{
    match action {
        ResampleAction::Process => phase,
        ResampleAction::ProcessPartial => ResamplePhase::Flushing,
        ResampleAction::Flush => {
            if emitted == 0 {
                ResamplePhase::Stalled
            } else {
                ResamplePhase::Flushing
            }
        },
        ResampleAction::Finish => phase,
    }
}

/// Cut the resampled channels back into a stereo slice: drop the first `delay`
/// frames of each channel and keep the next `target` ones. `None` when a channel
/// is too short to give `target` frames.
pub fn assemble_resampled<T: Copy>(left: &[T], right: &[T], delay: usize, target: usize) -> (res:
    Option<AudioSlice<T>>)
    ensures
        res is Some <==> (left@.len() >= delay + target && right@.len() >= delay + target),
        res is Some ==> res->0@.len() == target,
        res is Some ==> forall|t: int|
            0 <= t < target ==> (#[trigger] res->0@[t])[0] == left@[delay + t] && res->0@[t][1]
                == right@[delay + t],
{
    if left.len() < delay || left.len() - delay < target || right.len() < delay || right.len() - delay
        < target {
        return None;
    }
    let ln = left.len();
    let mut frames: Vec<[T; 2]> = Vec::with_capacity(target);
    let mut t: usize = 0;
    while t < target
        invariant
            t <= target,
            ln == left@.len(),
            delay + target <= ln,
            delay + target <= left@.len(),
            delay + target <= right@.len(),
            frames@.len() == t,
            forall|u: int|
                0 <= u < t ==> (#[trigger] frames@[u])[0] == left@[delay + u] && frames@[u][1]
                    == right@[delay + u],
        decreases target - t,
    {
        let frame: [T; 2] = [left[delay + t], right[delay + t]];
        assert(frame[0] == left@[delay + t]);
        assert(frame[1] == right@[delay + t]);
        frames.push(frame);
        t = t + 1;
    }
    let ghost kept = frames@;
    let slice = audio_slice_from_frames(frames);
    assert(slice@ == kept);
    assert(slice@.len() == target);
    assert forall|u: int| 0 <= u < target implies (#[trigger] slice@[u])[0] == left@[delay + u]
        && slice@[u][1] == right@[delay + u] by {
        assert(kept[u][0] == left@[delay + u]);
        assert(kept[u][1] == right@[delay + u]);
    }
    Some(slice)
}

/// Input is handed to the resampler at most 2048 frames at a time.
pub proof fn lemma_max_chunk_size_constant()
    ensures
        MAX_CHUNK_SIZE == 2048,
{
}

} // verus!
