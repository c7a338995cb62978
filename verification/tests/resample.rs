use ai_music_browser_detector::audio::open_audio_slice;
use ai_music_browser_detector::resample::{
    assemble_resampled, expected_output_frames, next_resample_action, phase_after,
    resample_chunk_size, ResampleAction, ResamplePhase,
};

#[test]
fn chunk_size_is_clamped() {
    assert_eq!(resample_chunk_size(0), 1);
    assert_eq!(resample_chunk_size(34), 34);
    assert_eq!(resample_chunk_size(2048), 2048);
    assert_eq!(resample_chunk_size(96_000), 2048);
}

#[test]
fn expected_frames_round_to_nearest() {
    assert_eq!(expected_output_frames(34, 48_000, 44_100), 31);
    assert_eq!(expected_output_frames(1, 48_000, 44_100), 1);
    assert_eq!(expected_output_frames(240_000, 48_000, 44_100), 220_500);
    assert_eq!(expected_output_frames(3, 44_100, 44_100), 3);
    // 1 * 3 / 2 = 1.5 rounds up
    assert_eq!(expected_output_frames(1, 2, 3), 2);
}

#[test]
fn driver_feeds_whole_chunks_then_the_rest_then_flushes() {
    let mut phase = ResamplePhase::Feeding;
    assert_eq!(next_resample_action(phase, 5000, 2048, 0, 10), ResampleAction::Process);
    phase = phase_after(phase, ResampleAction::Process, 1800);
    assert_eq!(phase, ResamplePhase::Feeding);
    assert_eq!(next_resample_action(phase, 904, 2048, 3600, 4700), ResampleAction::ProcessPartial);
    phase = phase_after(phase, ResampleAction::ProcessPartial, 800);
    assert_eq!(phase, ResamplePhase::Flushing);
    assert_eq!(next_resample_action(phase, 904, 2048, 4400, 4700), ResampleAction::Flush);
    phase = phase_after(phase, ResampleAction::Flush, 1800);
    assert_eq!(next_resample_action(phase, 904, 2048, 6200, 4700), ResampleAction::Finish);
}

#[test]
fn driver_stops_when_flushing_yields_nothing() {
    let phase = phase_after(ResamplePhase::Flushing, ResampleAction::Flush, 0);
    assert_eq!(phase, ResamplePhase::Stalled);
    assert_eq!(next_resample_action(phase, 0, 2048, 10, 100), ResampleAction::Finish);
}

#[test]
fn driver_flushes_when_input_divides_into_chunks() {
    let phase = ResamplePhase::Feeding;
    assert_eq!(next_resample_action(phase, 0, 2048, 10, 100), ResampleAction::Flush);
    assert_eq!(next_resample_action(phase, 0, 2048, 100, 100), ResampleAction::Finish);
}

#[test]
fn assemble_skips_delay_and_keeps_target() {
    let left = vec![0.0f32, 0.0, 1.0, 2.0, 3.0];
    let right = vec![0.0f32, 0.0, -1.0, -2.0, -3.0, -4.0];
    let slice = assemble_resampled(&left, &right, 2, 3).expect("long enough");
    let expected = open_audio_slice(&[1.0f32, -1.0, 2.0, -2.0, 3.0, -3.0]);
    assert_eq!(slice.shape(), &[3, 2]);
    assert_eq!(slice.interleaved(), expected.interleaved());
}

#[test]
fn assemble_refuses_short_channels() {
    let left = vec![1, 2, 3];
    let right = vec![1, 2, 3, 4];
    assert!(assemble_resampled(&left, &right, 1, 3).is_none());
    assert!(assemble_resampled(&right, &left, 1, 3).is_none());
    assert!(assemble_resampled(&left, &right, 1, 2).is_some());
    assert!(assemble_resampled(&left, &right, 4, 0).is_none());
}
