use ai_music_browser_detector::curve::{band_indices, lower_hull, select_items};

#[test]
fn lower_hull_keeps_window_minima_and_ends() {
    let keys = vec![5, 3, 4, 1, 2, 6, 0, 7];
    let (idx, hull) = lower_hull(&keys, Some(3));
    assert_eq!(idx, vec![0, 1, 3, 6, 7]);
    assert_eq!(hull, vec![5, 3, 1, 0, 7]);
}

#[test]
fn lower_hull_default_area_on_short_curve_keeps_ends() {
    let keys = vec![4, 2, 9, 1, 3];
    let (idx, hull) = lower_hull(&keys, None);
    assert_eq!(idx, vec![0, 4]);
    assert_eq!(hull, vec![4, 3]);
}

#[test]
fn lower_hull_zero_area_keeps_ends() {
    let keys = vec![4, 2, 9];
    let (idx, hull) = lower_hull(&keys, Some(0));
    assert_eq!(idx, vec![0, 2]);
    assert_eq!(hull, vec![4, 9]);
}

#[test]
fn lower_hull_single_point() {
    let (idx, hull) = lower_hull(&[42], Some(1));
    assert_eq!(idx, vec![0]);
    assert_eq!(hull, vec![42]);
    let (idx, hull) = lower_hull(&[42], None);
    assert_eq!(idx, vec![0, 0]);
    assert_eq!(hull, vec![42, 42]);
}

#[test]
fn lower_hull_ties_pick_first_minimum() {
    let (idx, _) = lower_hull(&[2, 2, 2], Some(2));
    assert_eq!(idx, vec![0, 1, 2]);
    let (idx, hull) = lower_hull(&[1, 0, 0, 0, 9], Some(3));
    assert_eq!(idx, vec![0, 1, 2, 4]);
    assert_eq!(hull, vec![1, 0, 0, 9]);
}

#[test]
fn lower_hull_default_area_on_long_curve() {
    // twelve keys: windows of ten start at 0, 1 and 2
    let keys = vec![9, 8, 7, 6, 5, 4, 3, 2, 1, 0, 10, 11];
    let (idx, hull) = lower_hull(&keys, None);
    assert_eq!(idx, vec![0, 9, 11]);
    assert_eq!(hull, vec![9, 0, 11]);
}

#[test]
fn band_indices_are_strictly_inside() {
    let keys = vec![1, 5, 10, 15, 20, 12];
    assert_eq!(band_indices(&keys, 5, 20), vec![2, 3, 5]);
    assert!(band_indices(&keys, 20, 5).is_empty());
    assert!(band_indices(&[], 0, 10).is_empty());
}

#[test]
fn select_items_follows_positions() {
    let items = vec![1.5f32, 2.5, 3.5, 4.5];
    assert_eq!(select_items(&items, &[3, 0, 0]), vec![4.5, 1.5, 1.5]);
    assert!(select_items(&items, &[]).is_empty());
}

/// Integer key ordering finite floats as `<` does.
fn order_key(x: f32) -> i64 {
    let x = if x == 0.0 { 0.0 } else { x };
    let bits = x.to_bits() as i32;
    if bits < 0 {
        (bits ^ 0x7fff_ffff) as i64
    } else {
        bits as i64
    }
}

#[test]
fn default_band_of_a_full_spectrum_has_4087_bins() {
    // bin frequencies of an N_FFT = 16384 real FFT at 44.1 kHz, as linspace gives them
    let n_bins = 8193usize;
    let end = 44_100f32 / 2.0;
    let step = end / (n_bins - 1) as f32;
    let freqs: Vec<f32> = (0..n_bins).map(|i| step * i as f32).collect();
    let keys: Vec<i64> = freqs.iter().map(|&f| order_key(f)).collect();
    let band = band_indices(&keys, order_key(5000.0), order_key(16000.0));
    assert_eq!(band.len(), 4087);
    assert!(band.iter().all(|&i| freqs[i] > 5000.0 && freqs[i] < 16000.0));
}

#[test]
fn lower_hull_of_float_curve_through_keys() {
    let curve = vec![-3.5f32, -10.0, -2.0, -0.0, 0.0, -7.25, 4.0];
    let keys: Vec<i64> = curve.iter().map(|&c| order_key(c)).collect();
    let (idx, _) = lower_hull(&keys, Some(2));
    // windows: [-3.5,-10] -> 1, [-10,-2] -> 1, [-2,-0] -> 2, [-0,0] -> 3, [0,-7.25] -> 5, [-7.25,4] -> 5
    assert_eq!(idx, vec![0, 1, 2, 3, 5, 6]);
}
