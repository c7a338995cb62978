use ai_music_browser_detector::audio::{
    check_pcm_input, open_audio_slice, resample_unchanged, spectrogram_settings, PcmInputError, SpectrogramSettings,
    NUM_CHANNELS,
};
use ai_music_browser_detector::stft::N_FFT;

#[test]
fn open_audio_slice1() {
    let pcm_audio = vec![0.0, 0.1, 0.2, 0.3, 0.4, 0.5]; // 3 samples of stereo audio
    let audio_slice = open_audio_slice(&pcm_audio);
    assert_eq!(audio_slice.shape(), &[3, 2]);
    let left_expected = vec![0.0, 0.2, 0.4];
    let right_expected = vec![0.1, 0.3, 0.5];
    assert_eq!(audio_slice.column(0).to_vec(), left_expected);
    assert_eq!(audio_slice.column(1).to_vec(), right_expected);
}

#[test]
fn open_audio_slice2() {
    let mut pcm_audio = Vec::with_capacity(200);
    for i in 0..200 {
        pcm_audio.push(i as f32 * 0.1);
    }
    let audio_slice = open_audio_slice(&pcm_audio);
    assert_eq!(audio_slice.shape(), &[100, 2]);
    let left_expected = pcm_audio.iter().step_by(2).cloned().collect::<Vec<f32>>();
    let right_expected = pcm_audio
        .iter()
        .skip(1)
        .step_by(2)
        .cloned()
        .collect::<Vec<f32>>();
    assert_eq!(audio_slice.column(0).to_vec(), left_expected);
    assert_eq!(audio_slice.column(1).to_vec(), right_expected);
}

#[test]
fn open_then_interleave_gives_input_back() {
    let pcm: Vec<i16> = vec![3, -3, 7, -7, 11, -11, 0, 1];
    let slice = open_audio_slice(&pcm);
    assert_eq!(slice.n_frames(), 4);
    assert_eq!(slice.frame(2), [11, -11]);
    assert_eq!(slice.interleaved(), pcm);
}

#[test]
fn open_empty_input_gives_empty_slice() {
    let pcm: Vec<f32> = Vec::new();
    let slice = open_audio_slice(&pcm);
    assert_eq!(slice.shape(), &[0, 2]);
    assert!(slice.interleaved().is_empty());
}

#[test]
fn truncated_keeps_leading_frames() {
    let pcm: Vec<u8> = (0..20).collect();
    let slice = open_audio_slice(&pcm);
    let head = slice.truncated(3);
    assert_eq!(head.interleaved(), vec![0, 1, 2, 3, 4, 5]);
    let whole = slice.truncated(1000);
    assert_eq!(whole.interleaved(), pcm);
    assert_eq!(slice.truncated(0).n_frames(), 0);
}

#[test]
fn pcm_input_empty_is_refused() {
    assert_eq!(check_pcm_input(0), Err(PcmInputError::Empty));
}

#[test]
fn pcm_input_shorter_than_a_window_is_refused() {
    let len = (N_FFT - 1) * NUM_CHANNELS;
    assert_eq!(
        check_pcm_input(len),
        Err(PcmInputError::TooShort { frames: N_FFT - 1 })
    );
    // an odd trailing sample does not make a frame
    assert_eq!(
        check_pcm_input(2 * N_FFT - 1),
        Err(PcmInputError::TooShort { frames: N_FFT - 1 })
    );
}

#[test]
fn pcm_input_of_one_window_is_accepted() {
    assert_eq!(check_pcm_input(NUM_CHANNELS * N_FFT), Ok(()));
    assert_eq!(check_pcm_input(2 * NUM_CHANNELS * N_FFT), Ok(()));
}

#[test]
fn spectrogram_settings_defaults() {
    let settings = spectrogram_settings(48_000, None, None);
    assert_eq!(
        settings,
        SpectrogramSettings {
            output_sample_rate: 44_100,
            resample: true,
            max_frames: 44_100 * 30,
        }
    );
}

#[test]
fn spectrogram_settings_same_rate_does_not_resample() {
    let settings = spectrogram_settings(48_000, Some(48_000), Some(2));
    assert_eq!(settings.output_sample_rate, 48_000);
    assert!(!settings.resample);
    assert_eq!(settings.max_frames, 96_000);
}

#[test]
fn resample_unchanged_at_equal_rates() {
    let pcm = vec![0.0f32, 0.1, 0.2, 0.3, 0.4, 0.5];
    let slice = open_audio_slice(&pcm);
    let same = resample_unchanged(&slice, 44_100, 44_100).expect("same rate");
    assert_eq!(same.interleaved(), pcm);
    assert!(resample_unchanged(&slice, 48_000, 44_100).is_none());
}

#[test]
fn copied_slice_keeps_frames() {
    let pcm: Vec<i32> = vec![1, 2, 3, 4];
    let slice = open_audio_slice(&pcm);
    assert_eq!(slice.copied().interleaved(), pcm);
}
