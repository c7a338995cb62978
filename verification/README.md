# ai_music_browser_detector

Fakeprint feature extraction for telling AI-generated music from human audio.

- `src/` is the verified library: stereo audio slices, spectrogram settings and
  input checks (`audio`), STFT framing and reflect padding (`stft`), the control
  logic of the sinc resampler (`resample`), band selection and the sliding-window
  lower hull of the curve profile (`curve`), and model shape checks (`model`).
  It never holds a sample value itself: routines are generic over the sample
  type, or compare integer keys that order the samples.
- `app/` holds the floating-point work around it: resampling with rubato, the
  FFT with realfft, the natural cubic spline with scirs2-interpolate, averaging
  and normalisation, CBOR model loading and scoring, and WAV reading.
- `tests/` exercises the library.
