use ai_music_browser_detector::stft::{reflect_pad, stft_frame_count, HOP, N_BINS, N_FFT, PAD};

#[test]
fn reflect_pad_mirrors_without_edges() {
    let signal = vec![1, 2, 3, 4, 5];
    assert_eq!(reflect_pad(&signal, 2), vec![3, 2, 1, 2, 3, 4, 5, 4, 3]);
    assert_eq!(reflect_pad(&signal, 0), signal);
    assert_eq!(reflect_pad(&signal, 4), vec![5, 4, 3, 2, 1, 2, 3, 4, 5, 4, 3, 2, 1]);
}

#[test]
fn reflect_pad_floats() {
    let signal = vec![0.5f32, -0.5, 0.25];
    assert_eq!(reflect_pad(&signal, 1), vec![-0.5, 0.5, -0.5, 0.25, -0.5]);
}

#[test]
fn stft_geometry_constants() {
    assert_eq!(N_FFT, 1 << 14);
    assert_eq!(HOP, N_FFT / 2);
    assert_eq!(PAD, N_FFT / 2);
    assert_eq!(N_BINS, N_FFT / 2 + 1);
}

#[test]
fn stft_frame_count_examples() {
    assert_eq!(stft_frame_count(2 * N_FFT), 5);
    // two seconds at 48 kHz
    assert_eq!(stft_frame_count(96_000), 12);
    assert_eq!(stft_frame_count(PAD + 1), 2);
}
