use chopper::slicing::{slice_at_onsets, slice_even, EVEN_SLICES, HOP};

#[test]
fn slice_even_exact() {
    assert_eq!(slice_even(100, 4), vec![(0, 25), (25, 50), (50, 75), (75, 100)]);
}

#[test]
fn slice_even_drops_remainder() {
    assert_eq!(slice_even(10, 3), vec![(0, 3), (3, 6), (6, 9)]);
}

#[test]
fn slice_even_shorter_than_count() {
    assert_eq!(slice_even(10, 16), vec![(0, 0); 16]);
}

#[test]
fn slice_even_tiles() {
    let r = slice_even(44_100, 16);
    assert_eq!(r.len(), 16);
    assert_eq!(r[0].0, 0);
    for i in 0..15 {
        assert_eq!(r[i].1, r[i + 1].0);
        assert_eq!(r[i].1 - r[i].0, 44_100 / 16);
    }
    assert!(44_100 - r[15].1 < 16);
}

#[test]
fn too_few_frames_fall_back_to_even() {
    let len = 3 * HOP + 10;
    let peaks = vec![false, true, true];
    assert_eq!(slice_at_onsets(len, &peaks, 0), slice_even(len, EVEN_SLICES));
}

#[test]
fn too_few_onsets_fall_back_to_even() {
    let len = 10 * HOP;
    let mut peaks = vec![false; 10];
    peaks[3] = true;
    peaks[6] = true;
    assert_eq!(slice_at_onsets(len, &peaks, 1), slice_even(len, EVEN_SLICES));
}

#[test]
fn onsets_cut_the_sample() {
    let len = 10 * HOP + 7;
    let mut peaks = vec![false; 10];
    peaks[2] = true;
    peaks[5] = true;
    peaks[7] = true;
    assert_eq!(
        slice_at_onsets(len, &peaks, 1),
        vec![(0, 2 * HOP), (2 * HOP, 5 * HOP), (5 * HOP, 7 * HOP), (7 * HOP, len)]
    );
}

#[test]
fn onsets_respect_min_gap() {
    let len = 12 * HOP;
    let mut peaks = vec![false; 12];
    for f in [2, 3, 5, 6, 9] {
        peaks[f] = true;
    }
    // With a gap of 2 frames: 2 is taken, 3 is too close, 5 is taken, 6 too close, 9 taken.
    assert_eq!(
        slice_at_onsets(len, &peaks, 2),
        vec![(0, 2 * HOP), (2 * HOP, 5 * HOP), (5 * HOP, 9 * HOP), (9 * HOP, len)]
    );
    // Frame 1 is a candidate too, but lies within 2 frames of frame 0.
    peaks[1] = true;
    assert_eq!(slice_at_onsets(len, &peaks, 2).len(), 4);
}

#[test]
fn last_frame_is_never_an_onset() {
    let len = 8 * HOP;
    let mut peaks = vec![false; 8];
    peaks[2] = true;
    peaks[4] = true;
    peaks[7] = true;
    // Only three onsets (0, 2, 4): the even fallback.
    assert_eq!(slice_at_onsets(len, &peaks, 1), slice_even(len, EVEN_SLICES));
    peaks[6] = true;
    assert_eq!(
        slice_at_onsets(len, &peaks, 1),
        vec![(0, 2 * HOP), (2 * HOP, 4 * HOP), (4 * HOP, 6 * HOP), (6 * HOP, len)]
    );
}

#[test]
fn onset_slices_tile_to_the_end() {
    let len = 40 * HOP + 100;
    let peaks: Vec<bool> = (0..40).map(|f| f % 3 == 1).collect();
    let r = slice_at_onsets(len, &peaks, 2);
    assert!(r.len() >= 4);
    assert_eq!(r[0].0, 0);
    for i in 0..r.len() - 1 {
        assert_eq!(r[i].1, r[i + 1].0);
        assert!(r[i].0 < r[i].1);
    }
    assert_eq!(r[r.len() - 1].1, len);
}
