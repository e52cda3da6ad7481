use std::time::Duration;

use fluvio_future::retry::ExponentialBackoff;
use sheet_connector::backoff::{
    backoff_init, Backoff, ConfigError, BACKOFF_FACTOR, BACKOFF_MAX_MILLIS, BACKOFF_MIN_MILLIS,
};

#[test]
fn reference_policy_runs_from_one_second_to_one_day() {
    assert_eq!(BACKOFF_MIN_MILLIS, 1_000);
    assert_eq!(BACKOFF_MAX_MILLIS, 24 * 3600 * 1000);
    assert_eq!(BACKOFF_FACTOR, 2);
    let backoff = backoff_init().unwrap();
    assert_eq!(backoff.min_millis(), 1_000);
    assert_eq!(backoff.max_millis(), 86_400_000);
    assert_eq!(backoff.factor(), 2);
    assert_eq!(backoff.current_millis(), 1_000);
}

#[test]
fn first_waits_double() {
    let mut backoff = backoff_init().unwrap();
    assert_eq!(backoff.next(), Some(1_000));
    assert_eq!(backoff.next(), Some(2_000));
    assert_eq!(backoff.next(), Some(4_000));
    assert_eq!(backoff.next(), Some(8_000));
    assert_eq!(backoff.current_millis(), 16_000);
}

#[test]
fn waits_double_until_the_ceiling_and_stay_there() {
    let mut backoff = backoff_init().unwrap();
    let mut expected: u64 = 1_000;
    for _ in 0..17 {
        assert_eq!(backoff.next(), Some(expected));
        expected *= 2;
    }
    // 1000 * 2^17 lies above one day
    assert_eq!(expected, 131_072_000);
    for _ in 0..5 {
        assert_eq!(backoff.next(), Some(86_400_000));
    }
    assert_eq!(backoff.current_millis(), 86_400_000);
}

#[test]
fn each_wait_is_the_last_times_the_factor_held_in_bounds() {
    let mut backoff = Backoff::new(3, 5, 100).unwrap();
    let mut last = backoff.next().unwrap();
    assert_eq!(last, 3);
    for _ in 0..10 {
        let wait = backoff.next().unwrap();
        assert_eq!(wait, (last * 5).clamp(3, 100));
        assert!(wait >= last);
        last = wait;
    }
    assert_eq!(last, 100);
}

#[test]
fn waits_of_a_small_policy() {
    let mut backoff = Backoff::new(3, 5, 100).unwrap();
    let waits: Vec<u64> = (0..5).map(|_| backoff.next().unwrap()).collect();
    assert_eq!(waits, vec![3, 15, 75, 100, 100]);
}

#[test]
fn reset_returns_to_the_floor() {
    let mut backoff = backoff_init().unwrap();
    backoff.next();
    backoff.next();
    backoff.next();
    assert_eq!(backoff.current_millis(), 8_000);
    backoff.reset();
    assert_eq!(backoff.current_millis(), 1_000);
    assert_eq!(backoff.next(), Some(1_000));
    assert_eq!(backoff.next(), Some(2_000));
}

#[test]
fn reset_keeps_bounds_and_factor() {
    let mut backoff = Backoff::new(7, 3, 1_000).unwrap();
    backoff.next();
    backoff.reset();
    assert_eq!(backoff.min_millis(), 7);
    assert_eq!(backoff.factor(), 3);
    assert_eq!(backoff.max_millis(), 1_000);
}

#[test]
fn factor_one_keeps_the_wait() {
    let mut backoff = Backoff::new(250, 1, 1_000).unwrap();
    for _ in 0..4 {
        assert_eq!(backoff.next(), Some(250));
    }
}

#[test]
fn floor_equal_to_ceiling() {
    let mut backoff = Backoff::new(500, 2, 500).unwrap();
    assert_eq!(backoff.next(), Some(500));
    assert_eq!(backoff.next(), Some(500));
}

#[test]
fn zero_floor_never_grows() {
    let mut backoff = Backoff::new(0, 2, 10).unwrap();
    assert_eq!(backoff.next(), Some(0));
    assert_eq!(backoff.next(), Some(0));
}

#[test]
fn product_beyond_the_machine_word_is_held_at_the_ceiling() {
    let mut backoff = Backoff::new(u64::MAX / 2 + 1, 3, u64::MAX).unwrap();
    assert_eq!(backoff.next(), Some(u64::MAX / 2 + 1));
    assert_eq!(backoff.next(), Some(u64::MAX));
    assert_eq!(backoff.next(), Some(u64::MAX));
}

#[test]
fn inverted_bounds_are_refused() {
    assert_eq!(Backoff::new(10, 2, 9).err(), Some(ConfigError::InvertedBounds));
}

#[test]
fn zero_factor_is_refused() {
    assert_eq!(Backoff::new(1, 0, 9).err(), Some(ConfigError::ZeroFactor));
}

#[test]
fn inverted_bounds_are_reported_before_a_zero_factor() {
    assert_eq!(Backoff::new(10, 0, 9).err(), Some(ConfigError::InvertedBounds));
}

#[test]
fn factor_equal_to_the_floor_gives_the_waits_of_the_retry_strategy() {
    for (base, max) in [(1_000u64, 86_400_000u64), (2, 1_000), (10, 10_000), (3, 3), (1, 50), (7, 1 << 60)] {
        let mut ours = Backoff::new(base, base, max).unwrap();
        let mut theirs = ExponentialBackoff::from_millis(base).max_delay(Duration::from_millis(max));
        for _ in 0..40 {
            let wait = ours.next().unwrap();
            assert_eq!(Some(Duration::from_millis(wait)), theirs.next());
        }
    }
}

#[test]
fn retry_strategy_of_the_reference_floor_skips_from_seconds_to_the_ceiling() {
    let mut ours = Backoff::new(1_000, 1_000, 86_400_000).unwrap();
    assert_eq!(ours.next(), Some(1_000));
    assert_eq!(ours.next(), Some(1_000_000));
    assert_eq!(ours.next(), Some(86_400_000));
    assert_eq!(ours.next(), Some(86_400_000));
}
