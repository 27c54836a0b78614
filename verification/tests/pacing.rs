use websearch::throttle::{delay_from, sample_delay, MAX_DELAY_SECS, MIN_DELAY_SECS};

#[test]
fn bounds_are_two_and_five_seconds() {
    assert_eq!(MIN_DELAY_SECS, 2);
    assert_eq!(MAX_DELAY_SECS, 5);
}

#[test]
fn thousand_samples_lie_within_the_bounds() {
    let mut seen = [false; 4];
    for _ in 0..1000 {
        let seconds = sample_delay();
        assert!((2..=5).contains(&seconds), "sampled {} s", seconds);
        seen[(seconds - 2) as usize] = true;
    }
    assert_eq!(seen, [true, true, true, true]);
}

#[test]
fn drawn_number_within_the_bounds_is_the_delay() {
    assert_eq!(delay_from(2), 2);
    assert_eq!(delay_from(3), 3);
    assert_eq!(delay_from(4), 4);
    assert_eq!(delay_from(5), 5);
}

#[test]
fn drawn_number_outside_the_bounds_is_clamped() {
    assert_eq!(delay_from(0), 2);
    assert_eq!(delay_from(1), 2);
    assert_eq!(delay_from(6), 5);
    assert_eq!(delay_from(u64::MAX), 5);
}
