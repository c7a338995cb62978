//! Verified core of the fakeprint feature extractor: the integer and index
//! logic behind audio framing, spectrogram geometry, resampling control,
//! lower-hull selection and model shape checks.
//!
//! No floating-point type appears here: every routine is either generic over
//! the sample type or works on integer keys that order the samples.

pub mod audio;
pub mod curve;
pub mod model;
pub mod resample;
pub mod stft;
