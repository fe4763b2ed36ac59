use chopper::noise::{next_noise_state, NOISE_SEED};

#[test]
fn noise_state_steps() {
    assert_eq!(next_noise_state(NOISE_SEED), 1359758873);
    assert_eq!(next_noise_state(1359758873), 3761132862);
    assert_eq!(next_noise_state(1), 270369);
}

#[test]
fn zero_state_stays_zero_and_others_do_not() {
    assert_eq!(next_noise_state(0), 0);
    let mut s = NOISE_SEED;
    for _ in 0..10_000 {
        s = next_noise_state(s);
        assert_ne!(s, 0);
    }
}
