//! Short-time Fourier transform geometry: reflect padding and frame counts.

use vstd::prelude::*;

verus! {

/// Size of each FFT window, in samples.
pub const N_FFT: usize = 16384;

/// Distance between the starts of two consecutive frames.
pub const HOP: usize = 8192;

/// Number of samples mirrored onto each end of a channel before framing.
pub const PAD: usize = 8192;

/// Number of frequency bins produced by a real FFT of size `N_FFT`.
pub const N_BINS: usize = 8193;

/// The signal `s` with its first `pad` samples after the first one mirrored in
/// front of it and its last `pad` samples before the last one mirrored behind it.
pub open spec fn reflect_padded<T>(s: Seq<T>, pad: int) -> Seq<T> {
    Seq::new(pad as nat, |j: int| s[pad - j]) + s + Seq::new(
        pad as nat,
        |j: int| s[s.len() - 2 - j],
    )
}

/// Reflect pad the signal by mirroring the first and last `pad` samples,
/// leaving out the edge samples themselves (numpy's "reflect" mode).
pub fn reflect_pad<T: Copy>(signal: &[T], pad: usize) -> (out: Vec<T>)
    requires
        pad < signal@.len(),
        signal@.len() + 2 * pad <= usize::MAX,
    ensures
        out@ == reflect_padded(signal@, pad as int),
        out@.len() == signal@.len() + 2 * pad,
{
    let n = signal.len();
    let mut out: Vec<T> = Vec::with_capacity(n + 2 * pad);
    let mut i: usize = pad;
    while i > 0
        invariant
            i <= pad < n,
            n == signal@.len(),
            out@ == Seq::new((pad - i) as nat, |j: int| signal@[pad - j]),
        decreases i,
    {
        out.push(signal[i]);
        i = i - 1;
        proof {
            assert(out@ =~= Seq::new((pad - i) as nat, |j: int| signal@[pad - j]));
        }
    }
    let ghost left = out@;
    let mut k: usize = 0;
    while k < n
        invariant
            k <= n,
            n == signal@.len(),
            out@ == left + signal@.take(k as int),
        decreases n - k,
    {
        out.push(signal[k]);
        k = k + 1;
        proof {
            assert(out@ =~= left + signal@.take(k as int));
        }
    }
    assert(signal@.take(n as int) =~= signal@);
    let ghost middle = out@;
    let mut r: usize = 0;
    while r < pad
        invariant
            r <= pad < n,
            n == signal@.len(),
            out@ == middle + Seq::new(r as nat, |j: int| signal@[n - 2 - j]),
        decreases pad - r,
    {
        out.push(signal[n - 2 - r]);
        r = r + 1;
        proof {
            assert(out@ =~= middle + Seq::new(r as nat, |j: int| signal@[n - 2 - j]));
        }
    }
    proof {
        assert(out@ =~= reflect_padded(signal@, pad as int));
    }
    out
}

/// Number of full `N_FFT` windows, `HOP` samples apart, that fit in a channel of
/// `n_samples` samples once it is reflect padded by `PAD` on both ends.
pub open spec fn frame_count(n_samples: int) -> int {
    1 + (n_samples + 2 * PAD - N_FFT) / (HOP as int)
}

/// The number of STFT frames computed for a channel of `n_samples` samples.
pub fn stft_frame_count(n_samples: usize) -> (frames: usize)
    requires
        PAD < n_samples,
        n_samples + 2 * PAD <= usize::MAX,
    ensures
        frames == frame_count(n_samples as int),
        frames >= 1,
        (frames - 1) * HOP + N_FFT <= n_samples + 2 * PAD,
        frames * HOP + N_FFT > n_samples + 2 * PAD,
{
    let padded_len = n_samples + 2 * PAD;
    1 + (padded_len - N_FFT) / HOP
}

/// Reflect padding mirrors the signal about its first and its last sample: the
/// padded signal reads the same in both directions from either edge sample.
pub proof fn lemma_reflect_padded_mirrors<T>(s: Seq<T>, pad: int, j: int)
    requires
        0 <= pad < s.len(),
        0 <= j <= pad,
    ensures
        reflect_padded(s, pad)[pad - j] == reflect_padded(s, pad)[pad + j],
        reflect_padded(s, pad)[pad + s.len() - 1 + j] == reflect_padded(s, pad)[pad + s.len() - 1 - j],
        forall|i: int| 0 <= i < s.len() ==> #[trigger] reflect_padded(s, pad)[pad + i] == s[i],
{
    let p = reflect_padded(s, pad);
    let left = Seq::new(pad as nat, |k: int| s[pad - k]);
    let right = Seq::new(pad as nat, |k: int| s[s.len() - 2 - k]);
    assert(p == left + s + right);
    assert forall|i: int| 0 <= i < s.len() implies #[trigger] p[pad + i] == s[i] by {}
    if j > 0 {
        assert(p[pad - j] == left[pad - j]);
    }
    if j > 0 {
        assert(p[pad + s.len() - 1 + j] == right[j - 1]);
    }
}

/// The STFT uses 2^14-sample windows that overlap by half, pads each end by
/// half a window, and yields one bin per frequency up to Nyquist.
pub proof fn lemma_stft_constants()
    ensures
        N_FFT == 16384,
        HOP == N_FFT / 2,
        PAD == N_FFT / 2,
        N_BINS == N_FFT / 2 + 1,
{
}

} // verus!
