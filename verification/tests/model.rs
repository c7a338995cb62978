use ai_music_browser_detector::model::{check_feature_count, LengthMismatch};

#[test]
fn feature_count_matching_is_accepted() {
    assert_eq!(check_feature_count(2, 2), Ok(()));
    assert_eq!(check_feature_count(0, 0), Ok(()));
}

#[test]
fn feature_count_mismatch_is_reported() {
    assert_eq!(
        check_feature_count(4087, 2),
        Err(LengthMismatch { expected: 4087, actual: 2 })
    );
    assert_eq!(
        check_feature_count(1, 0),
        Err(LengthMismatch { expected: 1, actual: 0 })
    );
}
