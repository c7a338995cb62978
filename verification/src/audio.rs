//! Stereo audio slices and the checks and settings that come before a
//! spectrogram is computed.

use vstd::prelude::*;
use crate::stft::N_FFT;

verus! {

/// Number of interleaved channels the extractor works on.
pub const NUM_CHANNELS: usize = 2;

/// Sample rate the spectrogram is computed at when none is given, in Hz.
pub const DEFAULT_SAMPLE_RATE: u32 = 44100;

/// Longest stretch of audio the spectrogram covers when none is given, in seconds.
pub const DURATION: u32 = 30;

/// A stereo audio slice of shape [time, channels]: frame `t` holds the left and
/// right sample at time `t`.
#[derive(Debug, Clone)]
pub struct AudioSlice<T> {
    frames: Vec<[T; 2]>,
}

impl<T> View for AudioSlice<T> {
    type V = Seq<[T; 2]>;

    closed spec fn view(&self) -> Seq<[T; 2]> {
        self.frames@
    }
}

/// `frames` are the consecutive pairs of the interleaved samples `pcm`.
pub open spec fn interleaves<T>(frames: Seq<[T; 2]>, pcm: Seq<T>) -> bool {
    &&& pcm.len() == 2 * frames.len()
    &&& forall|t: int|
        0 <= t < frames.len() ==> (#[trigger] frames[t])[0] == pcm[2 * t] && frames[t][1] == pcm[2 * t + 1]
}

/// Open an audio slice for processing from interleaved stereo samples
/// `[L0, R0, L1, R1, ...]`, giving one frame per pair.
pub fn open_audio_slice<T: Copy>(pcm_audio: &[T]) -> (slice: AudioSlice<T>)
    requires
        pcm_audio@.len() % 2 == 0,
    ensures
        interleaves(slice@, pcm_audio@),
        slice@.len() == pcm_audio@.len() / 2,
        forall|t: int|
            0 <= t < slice@.len() ==> (#[trigger] slice@[t])[0] == pcm_audio@[2 * t] && slice@[t][1]
                == pcm_audio@[2 * t + 1],
{
    let len = pcm_audio.len();
    let n_samples = len / NUM_CHANNELS;
    let mut frames: Vec<[T; 2]> = Vec::with_capacity(n_samples);
    let mut t: usize = 0;
    while t < n_samples
        invariant
            t <= n_samples,
            2 * n_samples == len,
            len == pcm_audio@.len(),
            frames@.len() == t,
            forall|u: int|
                0 <= u < t ==> (#[trigger] frames@[u])[0] == pcm_audio@[2 * u] && frames@[u][1]
                    == pcm_audio@[2 * u + 1],
        decreases n_samples - t,
    {
        let frame: [T; 2] = [pcm_audio[2 * t], pcm_audio[2 * t + 1]];
        assert(frame[0] == pcm_audio@[2 * t]);
        assert(frame[1] == pcm_audio@[2 * t + 1]);
        frames.push(frame);
        t = t + 1;
    }
    assert(interleaves(frames@, pcm_audio@));
    let slice = AudioSlice { frames };
    assert(slice@ == frames@);
    slice
}

impl<T: Copy> AudioSlice<T> {
    /// Number of frames (the length of the time axis).
    pub fn n_frames(&self) -> (n: usize)
        ensures
            n == self@.len(),
    {
        self.frames.len()
    }

    /// The shape `[time, channels]`.
    pub fn shape(&self) -> (shape: Vec<usize>)
        ensures
            shape@ == seq![self@.len() as usize, NUM_CHANNELS],
    {
        let mut shape: Vec<usize> = Vec::new();
        shape.push(self.frames.len());
        shape.push(NUM_CHANNELS);
        shape
    }

    /// Frame `t`: the left and right sample at time `t`.
    pub fn frame(&self, t: usize) -> (frame: [T; 2])
        requires
            t < self@.len(),
        ensures
            frame == self@[t as int],
    {
        self.frames[t]
    }

    /// All samples of channel `ch` (0 for left, 1 for right), in time order.
    pub fn column(&self, ch: usize) -> (column: Vec<T>)
        requires
            ch < NUM_CHANNELS,
        ensures
            column@.len() == self@.len(),
            forall|t: int| 0 <= t < self@.len() ==> #[trigger] column@[t] == self@[t][ch as int],
    {
        let n = self.frames.len();
        let mut column: Vec<T> = Vec::with_capacity(n);
        let mut t: usize = 0;
        while t < n
            invariant
                t <= n,
                n == self@.len(),
                ch < NUM_CHANNELS,
                column@.len() == t,
                forall|u: int| 0 <= u < t ==> #[trigger] column@[u] == self@[u][ch as int],
            decreases n - t,
        {
            let frame = self.frames[t];
            column.push(frame[ch]);
            t = t + 1;
        }
        column
    }

    /// The samples again in interleaved order `[L0, R0, L1, R1, ...]`.
    pub fn interleaved(&self) -> (pcm: Vec<T>)
        requires
            2 * self@.len() <= usize::MAX,
        ensures
            interleaves(self@, pcm@),
            pcm@.len() == 2 * self@.len(),
            forall|t: int|
                0 <= t < self@.len() ==> (#[trigger] self@[t])[0] == pcm@[2 * t] && self@[t][1]
                    == pcm@[2 * t + 1],
    {
        let n = self.frames.len();
        let mut pcm: Vec<T> = Vec::with_capacity(2 * n);
        let mut t: usize = 0;
        while t < n
            invariant
                t <= n,
                n == self@.len(),
                pcm@.len() == 2 * t,
                forall|u: int|
                    0 <= u < t ==> (#[trigger] self@[u])[0] == pcm@[2 * u] && self@[u][1] == pcm@[2 * u + 1],
            decreases n - t,
        {
            let frame = self.frames[t];
            assert(frame == self@[t as int]);
            let ghost before = pcm@;
            pcm.push(frame[0]);
            pcm.push(frame[1]);
            proof {
                assert(pcm@[2 * t] == self@[t as int][0]);
                assert(pcm@[2 * t + 1] == self@[t as int][1]);
                assert forall|u: int| 0 <= u < t implies (#[trigger] self@[u])[0] == pcm@[2 * u]
                    && self@[u][1] == pcm@[2 * u + 1] by {
                    assert(pcm@[2 * u] == before[2 * u]);
                    assert(pcm@[2 * u + 1] == before[2 * u + 1]);
                }
            }
            t = t + 1;
        }
        pcm
    }

    /// A copy of the slice, frame for frame.
    pub fn copied(&self) -> (copy: AudioSlice<T>)
        ensures
            copy@ == self@,
    {
        let n = self.frames.len();
        let copy = self.truncated(n);
        assert(self@.take(n as int) =~= self@);
        copy
    }

    /// The first `end` frames, or the whole slice when it is shorter.
    pub fn truncated(&self, end: usize) -> (head: AudioSlice<T>)
        ensures
            head@ == self@.take(if end < self@.len() { end as int } else { self@.len() as int }),
    {
        let n = self.frames.len();
        let stop = if end < n {
            end
        } else {
            n
        };
        let mut frames: Vec<[T; 2]> = Vec::with_capacity(stop);
        let mut t: usize = 0;
        while t < stop
            invariant
                t <= stop <= n,
                n == self@.len(),
                frames@ == self@.take(t as int),
            decreases stop - t,
        {
            frames.push(self.frames[t]);
            t = t + 1;
            proof {
                assert(frames@ =~= self@.take(t as int));
            }
        }
        AudioSlice { frames }
    }
}

/// Builds a slice from its frames.
pub fn audio_slice_from_frames<T>(frames: Vec<[T; 2]>) -> (slice: AudioSlice<T>)
    ensures
        slice@ == frames@,
{
    AudioSlice { frames }
}

/// Why interleaved stereo input is refused before a fakeprint is computed.
#[derive(Debug, Clone, Copy, PartialEq, Eq, Structural)]
pub enum PcmInputError {
    /// There are no samples at all.
    Empty,
    /// Fewer frames than one FFT window; `frames` is how many there are.
    TooShort { frames: usize },
}

/// Check interleaved stereo input of `len` samples: it must be non-empty and
/// hold at least `N_FFT` frames.
pub fn check_pcm_input(len: usize) -> (res: Result<(), PcmInputError>)
    ensures
        len == 0 ==> res == Err::<(), PcmInputError>(PcmInputError::Empty),
        len != 0 && len / 2 < N_FFT ==> res == Err::<(), PcmInputError>(
            PcmInputError::TooShort { frames: len / 2 },
        ),
        len != 0 && len / 2 >= N_FFT ==> res is Ok,
{
    if len == 0 {
        return Err(PcmInputError::Empty);
    }
    if len / NUM_CHANNELS < N_FFT {
        return Err(PcmInputError::TooShort { frames: len / NUM_CHANNELS });
    }
    Ok(())
}

/// How the spectrogram of a piece of audio is set up.
#[derive(Debug, Clone, Copy, PartialEq, Eq, Structural)]
pub struct SpectrogramSettings {
    /// Sample rate the spectrogram is computed at.
    pub output_sample_rate: u32,
    /// Whether the audio has to be resampled to that rate first.
    pub resample: bool,
    /// Most frames (after resampling) that the spectrogram covers.
    pub max_frames: usize,
}

/// The sample rate the spectrogram uses for a requested rate.
pub open spec fn effective_rate(output_sample_rate: Option<u32>) -> u32 {
    match output_sample_rate {
        Some(r) => r,
        None => DEFAULT_SAMPLE_RATE,
    }
}

/// The longest duration the spectrogram covers for a requested duration.
pub open spec fn effective_duration(max_duration: Option<u32>) -> u32 {
    match max_duration {
        Some(d) => d,
        None => DURATION,
    }
}

/// Settle the output rate (44.1 kHz by default), whether to resample, and how
/// many frames of audio (30 s by default) the spectrogram covers.
pub fn spectrogram_settings(
    input_sample_rate: u32,
    output_sample_rate: Option<u32>,
    max_duration: Option<u32>,
) -> (settings: SpectrogramSettings)
    requires
        effective_rate(output_sample_rate) * effective_duration(max_duration) <= u32::MAX,
    ensures
        settings.output_sample_rate == effective_rate(output_sample_rate),
        settings.resample == (effective_rate(output_sample_rate) != input_sample_rate),
        settings.max_frames == effective_rate(output_sample_rate) * effective_duration(max_duration),
        settings.output_sample_rate == (match output_sample_rate {
            Some(r) => r,
            None => 44100u32,
        }),
        settings.resample == (settings.output_sample_rate != input_sample_rate),
        settings.max_frames == settings.output_sample_rate * (match max_duration {
            Some(d) => d,
            None => 30u32,
        }),
{
    let output_sample_rate = output_sample_rate.unwrap_or(DEFAULT_SAMPLE_RATE);
    let max_duration = max_duration.unwrap_or(DURATION);
    let max_frames = (output_sample_rate * max_duration) as usize;
    SpectrogramSettings {
        output_sample_rate,
        resample: output_sample_rate != input_sample_rate,
        max_frames,
    }
}

/// Interleaving is one-to-one both ways: a slice has only one interleaved form,
/// and interleaved samples open to only one slice. So `interleaved` undoes
/// `open_audio_slice` and the reverse.
pub proof fn lemma_interleaving_unique<T>(f: Seq<[T; 2]>, g: Seq<[T; 2]>, p: Seq<T>, q: Seq<T>)
    requires
        interleaves(f, p),
        interleaves(g, q),
    ensures
        f == g ==> p == q,
        p == q ==> f == g,
{
    if f == g {
        assert forall|i: int| 0 <= i < p.len() implies p[i] == q[i] by {
            let t = i / 2;
            assert(f[t][0] == p[2 * t] && f[t][1] == p[2 * t + 1]);
            assert(g[t][0] == q[2 * t] && g[t][1] == q[2 * t + 1]);
        }
        assert(p =~= q);
    }
    if p == q {
        assert forall|t: int| 0 <= t < f.len() implies f[t] == g[t] by {
            assert(f[t][0] == g[t][0] && f[t][1] == g[t][1]);
            assert(f[t]@ =~= g[t]@);
            vstd::array::axiom_array_ext_equal(f[t], g[t]);
        }
        assert(f =~= g);
    }
}

/// When the output rate equals the input rate, resampling leaves the slice
/// unchanged: this gives that unchanged copy, and `None` when the rates differ
/// and the samples have to go through the resampler.
pub fn resample_unchanged<T: Copy>(audio_slice: &AudioSlice<T>, input_rate: u32, output_rate: u32) -> (res:
    Option<AudioSlice<T>>)
    ensures
        res is Some <==> input_rate == output_rate,
        res is Some ==> res->0@ == audio_slice@,
{
    if input_rate == output_rate {
        Some(audio_slice.copied())
    } else {
        None
    }
}

/// Number of frames of the spectrogram's time axis: the audio is cut to at most
/// `max_frames` frames and then framed every `HOP` samples after reflect padding,
/// giving `1 + min(len, max_frames) / HOP` frames.
pub proof fn lemma_spectrogram_time_axis(len: int, max_frames: int)
    requires
        0 <= len,
        0 <= max_frames,
    ensures
        ({
            let kept = if max_frames < len { max_frames } else { len };
            crate::stft::frame_count(kept) == 1 + kept / (crate::stft::HOP as int)
        }),
{
}

/// Interleaving pairs frame `t` with samples `2t` and `2t + 1`, left first, for
/// every frame and nothing else.
pub proof fn lemma_interleaves_pairs_in_time_order<T>(frames: Seq<[T; 2]>, pcm: Seq<T>)
    ensures
        interleaves(frames, pcm) <==> (pcm.len() == 2 * frames.len() && forall|t: int|
            0 <= t < frames.len() ==> (#[trigger] frames[t])[0] == pcm[2 * t] && frames[t][1] == pcm[2
                * t + 1]),
{
}

/// A requested output rate is used as given; without one the rate is 44.1 kHz.
pub proof fn lemma_effective_rate(r: u32)
    ensures
        effective_rate(Some(r)) == r,
        effective_rate(None) == 44100,
{
}

/// A requested duration is used as given, however long; without one it is 30 s.
pub proof fn lemma_effective_duration(d: u32)
    ensures
        effective_duration(Some(d)) == d,
        effective_duration(None) == 30,
{
}

/// The extractor works on stereo audio, at 44.1 kHz and over 30 s unless told
/// otherwise.
pub proof fn lemma_audio_constants()
    ensures
        NUM_CHANNELS == 2,
        DEFAULT_SAMPLE_RATE == 44100,
        DURATION == 30,
{
}

} // verus!
