//! The clocks and the random numbers on concrete values.
use eo9_stubs::entropy_seeded::{get_bytes, next_u64, with_state};
use eo9_stubs::time::{
    configure_fuzzy, fuzzy_resolution, fuzzy_sleep, quantize_datetime, quantize_instant,
    with_clock, Clock, Datetime, Frozen,
};

#[test]
fn frozen_clock_stands_still() {
    let frozen = Frozen { now_seconds: -5, monotonic_ns: 42 };
    assert_eq!(frozen.now(), Datetime { seconds: -5, nanoseconds: 0 });
    assert_eq!(frozen.monotonic_now(), 42);
    assert_eq!(frozen.monotonic_now(), 42);
    assert_eq!(frozen.resolution(), u64::MAX);
}

#[test]
fn stub_clock_goes_on_when_looked_at() {
    let mut state = None;
    let clock = with_clock(&mut state);
    assert_eq!(clock.observe(), 0);
    assert_eq!(clock.observe(), 1_000_000);
    clock.sleep(2_000_000_000);
    assert_eq!(clock.now(), Datetime { seconds: 2, nanoseconds: 2_000_000 });
    assert_eq!(clock.resolution(), 1_000_000);
    assert_eq!(clock.observe(), 2_003_000_000);
}

#[test]
fn stub_clock_stops_at_its_end() {
    let mut clock = Clock { counter_ns: u64::MAX - 1, step_ns: 5 };
    assert_eq!(clock.observe(), u64::MAX - 1);
    assert_eq!(clock.observe(), u64::MAX);
    assert_eq!(clock.observe(), u64::MAX);
}

#[test]
fn coarse_clock_floors() {
    assert_eq!(quantize_instant(1_234_567, 1000), 1_234_000);
    let time = Datetime { seconds: 17, nanoseconds: 987_654_321 };
    assert_eq!(
        quantize_datetime(time, 1_000_000),
        Datetime { seconds: 17, nanoseconds: 987_000_000 }
    );
    assert_eq!(
        quantize_datetime(time, 5_500_000_000),
        Datetime { seconds: 15, nanoseconds: 0 }
    );
    let early = Datetime { seconds: -7, nanoseconds: 5 };
    assert_eq!(
        quantize_datetime(early, 5_000_000_000),
        Datetime { seconds: -10, nanoseconds: 0 }
    );
    assert_eq!(
        quantize_datetime(Datetime { seconds: -10, nanoseconds: 5 }, 5_000_000_000),
        Datetime { seconds: -10, nanoseconds: 0 }
    );
}

#[test]
fn coarse_clock_rounds_sleep_up() {
    assert_eq!(fuzzy_sleep(0, 1000), 0);
    assert_eq!(fuzzy_sleep(1, 1000), 1000);
    assert_eq!(fuzzy_sleep(1000, 1000), 1000);
    assert_eq!(fuzzy_sleep(u64::MAX, 1000), u64::MAX);
    assert_eq!(fuzzy_sleep(u64::MAX - 1, u64::MAX), u64::MAX);
    assert_eq!(fuzzy_resolution(10, 1000), 1000);
    assert_eq!(fuzzy_resolution(5000, 1000), 5000);
    assert_eq!(configure_fuzzy(0), Err("granularity-ns must be at least 1".to_string()));
    assert_eq!(configure_fuzzy(3), Ok(3));
}

#[test]
fn generator_matches_its_known_numbers() {
    let mut counter = 1_234_567;
    assert_eq!(next_u64(&mut counter), 6_457_827_717_110_365_317);
    assert_eq!(next_u64(&mut counter), 3_203_168_211_198_807_973);
    assert_eq!(next_u64(&mut counter), 9_817_491_932_198_370_423);
}

#[test]
fn draws_begin_alike() {
    let mut state = None;
    let counter = with_state(&mut state);
    assert_eq!(*counter, 0xE09);
    let mut one = *counter;
    let mut other = *counter;
    let long = get_bytes(&mut one, 21);
    let short = get_bytes(&mut other, 13);
    assert_eq!(long.len(), 21);
    assert_eq!(long[..13], short[..]);
    assert_eq!(one, 0xE09u64.wrapping_add(3u64.wrapping_mul(0x9e37_79b9_7f4a_7c15)));
    let mut words = 0xE09;
    assert_eq!(long[..8], next_u64(&mut words).to_le_bytes());
}

#[test]
fn draws_add_up() {
    let mut whole = 7;
    let all = get_bytes(&mut whole, 24);
    let mut parts = 7;
    let mut both = get_bytes(&mut parts, 16);
    both.extend(get_bytes(&mut parts, 8));
    assert_eq!(all, both);
    assert_eq!(whole, parts);
}
