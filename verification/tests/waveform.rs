use chopper::waveform::{peak_bucket, peak_column, WAVE_PTS};

#[test]
fn buckets_of_a_long_sample() {
    assert_eq!(peak_bucket(0, 4096), (0, 2));
    assert_eq!(peak_bucket(1, 4096), (2, 4));
    assert_eq!(peak_bucket(2047, 4096), (4094, 4096));
}

#[test]
fn buckets_of_a_short_sample() {
    assert_eq!(peak_bucket(0, 100), (0, 0));
    assert_eq!(peak_bucket(20, 100), (0, 1));
    assert_eq!(peak_bucket(21, 100), (1, 1));
    assert_eq!(peak_bucket(2047, 100), (99, 100));
}

#[test]
fn buckets_tile_the_sample() {
    for len in [0usize, 1, 7, 2048, 44_100] {
        assert_eq!(peak_bucket(0, len).0, 0);
        assert_eq!(peak_bucket(WAVE_PTS - 1, len).1, len);
        for i in 0..WAVE_PTS - 1 {
            let (a, b) = peak_bucket(i, len);
            assert!(a <= b && b <= len);
            assert_eq!(b, peak_bucket(i + 1, len).0);
        }
    }
}

#[test]
fn columns_map_to_buckets() {
    assert_eq!(peak_column(0, 400), 0);
    assert_eq!(peak_column(1, 400), 5);
    assert_eq!(peak_column(399, 400), 2042);
    assert_eq!(peak_column(5, 4), WAVE_PTS - 1);
    assert_eq!(peak_column(3, 4096), 1);
}
