use casial_federation::circuit::{
    backoff_with_jitter, compute_backoff_duration, jitter_limit, CircuitState,
};
use casial_federation::config::FederationSettings;

fn settings(threshold: u32, initial: u64, max: u64) -> FederationSettings {
    let mut settings = FederationSettings::default();
    settings.circuit_breaker_threshold = threshold;
    settings.backoff_initial_ms = initial;
    settings.backoff_max_ms = max;
    settings
}

#[test]
fn backoff_doubles_until_the_cap() {
    let s = settings(3, 250, 5_000);
    assert_eq!(backoff_with_jitter(&s, 0, 0), 250);
    assert_eq!(backoff_with_jitter(&s, 1, 0), 500);
    assert_eq!(backoff_with_jitter(&s, 2, 0), 1_000);
    assert_eq!(backoff_with_jitter(&s, 3, 0), 2_000);
    assert_eq!(backoff_with_jitter(&s, 4, 0), 4_000);
    assert_eq!(backoff_with_jitter(&s, 5, 0), 5_000);
    assert_eq!(backoff_with_jitter(&s, 40, 0), 5_000);
    assert_eq!(backoff_with_jitter(&s, u32::MAX, 0), 5_000);
}

#[test]
fn backoff_adds_the_jitter() {
    let s = settings(3, 250, 5_000);
    assert_eq!(backoff_with_jitter(&s, 0, 17), 267);
    assert_eq!(backoff_with_jitter(&s, 5, 250), 5_250);
}

#[test]
fn backoff_exponent_stops_at_sixteen() {
    let s = settings(3, 10, u64::MAX);
    assert_eq!(backoff_with_jitter(&s, 15, 0), 10 * 32_768);
    assert_eq!(backoff_with_jitter(&s, 16, 0), 10 * 65_536);
    assert_eq!(backoff_with_jitter(&s, 17, 0), 10 * 65_536);
    assert_eq!(backoff_with_jitter(&s, 1_000, 0), 10 * 65_536);
}

#[test]
fn backoff_holds_within_u64() {
    let s = settings(3, u64::MAX, u64::MAX);
    assert_eq!(backoff_with_jitter(&s, 16, 5), u64::MAX);
}

#[test]
fn backoff_is_never_below_one_millisecond() {
    let s = settings(3, 0, 0);
    assert_eq!(jitter_limit(&s), 0);
    assert_eq!(backoff_with_jitter(&s, 0, 0), 1);
    assert_eq!(backoff_with_jitter(&s, 9, 0), 1);
    let t = settings(3, 0, 5_000);
    assert_eq!(backoff_with_jitter(&t, 30, 0), 1);
    assert_eq!(jitter_limit(&t), 0);
}

#[test]
fn backoff_is_capped_even_below_the_initial() {
    let s = settings(3, 400, 100);
    assert_eq!(jitter_limit(&s), 100);
    assert_eq!(backoff_with_jitter(&s, 0, 0), 100);
    assert_eq!(backoff_with_jitter(&s, 7, 0), 100);
    assert_eq!(backoff_with_jitter(&s, 7, 100), 200);
    let small = settings(3, 3, 100);
    assert_eq!(jitter_limit(&small), 3);
    assert_eq!(backoff_with_jitter(&small, 0, 2), 5);
    assert_eq!(backoff_with_jitter(&small, 5, 0), 96);
    assert_eq!(backoff_with_jitter(&small, 6, 0), 100);
}

#[test]
fn backoff_is_non_decreasing_before_jitter() {
    let s = settings(3, 250, 5_000);
    let mut last = 0;
    for attempt in 0..40u32 {
        let now = backoff_with_jitter(&s, attempt, 0);
        assert!(now >= last);
        assert!(now >= 1);
        assert!(now <= 5_000);
        last = now;
    }
}

#[test]
fn drawn_backoff_stays_in_range_and_varies() {
    let s = settings(3, 250, 5_000);
    let mut seen_low = u64::MAX;
    let mut seen_high = 0;
    for _ in 0..400 {
        let ms = compute_backoff_duration(&s, 1);
        assert!(ms >= 500);
        assert!(ms <= 750);
        seen_low = seen_low.min(ms);
        seen_high = seen_high.max(ms);
    }
    assert!(seen_low < seen_high);
}

#[test]
fn new_circuit_is_closed() {
    let state = CircuitState::new(180);
    assert_eq!(state.failure_count, 0);
    assert_eq!(state.last_failure, None);
    assert_eq!(state.open_until, None);
    assert_eq!(state.reset_after, 180);
    assert!(!state.is_open_now(0));
    assert_eq!(CircuitState::new(0).reset_after, 1);
}

#[test]
fn third_failure_opens_the_circuit() {
    let s = settings(3, 250, 5_000);
    let mut state = CircuitState::new(180);
    assert_eq!(state.register_failure_with(1_000, &s, 0), None);
    assert_eq!(state.register_failure_with(1_001, &s, 0), None);
    assert!(!state.is_open_now(1_002));
    assert_eq!(state.register_failure_with(1_002, &s, 40), Some(290));
    assert_eq!(state.failure_count, 3);
    assert_eq!(state.open_until, Some(1_292));
    assert!(state.is_open_now(1_002));
    assert!(state.is_open_now(1_291));
    assert!(!state.is_open_now(1_292));
}

#[test]
fn drawn_failure_opens_on_the_threshold() {
    let s = settings(3, 250, 5_000);
    let mut state = CircuitState::new(180);
    assert!(state.register_failure(10, &s).is_none());
    assert!(state.register_failure(11, &s).is_none());
    let opened = state.register_failure(12, &s).expect("third failure opens");
    assert!(opened >= 250 && opened <= 500);
    assert_eq!(state.open_until, Some(12 + opened));
}

#[test]
fn later_failures_back_off_longer() {
    let s = settings(2, 100, 10_000);
    let mut state = CircuitState::new(180);
    assert_eq!(state.register_failure_with(0, &s, 0), None);
    assert_eq!(state.register_failure_with(1, &s, 0), Some(100));
    assert_eq!(state.register_failure_with(2, &s, 0), Some(200));
    assert_eq!(state.register_failure_with(3, &s, 0), Some(400));
    assert_eq!(state.open_until, Some(403));
}

#[test]
fn threshold_of_zero_opens_on_the_first_failure() {
    let s = settings(0, 250, 5_000);
    let mut state = CircuitState::new(180);
    assert_eq!(state.register_failure_with(5, &s, 0), Some(500));
    assert_eq!(state.open_until, Some(505));
}

#[test]
fn check_reports_open_until_the_cooldown_ends() {
    let s = settings(1, 250, 5_000);
    let mut state = CircuitState::new(180);
    assert_eq!(state.register_failure_with(1_000, &s, 0), Some(250));
    let before = state;
    assert!(state.is_open(1_000));
    assert!(state.is_open(1_249));
    assert_eq!(state.failure_count, before.failure_count);
    assert_eq!(state.open_until, Some(1_250));
    assert!(!state.is_open(1_250));
    assert_eq!(state.open_until, None);
    assert_eq!(state.failure_count, 0);
    assert_eq!(state.last_failure, Some(1_000));
    assert!(!state.is_open(1_251));
    assert!(!state.is_open(0));
    assert_eq!(state.open_until, None);
}

#[test]
fn stale_failure_is_forgiven() {
    let s = settings(3, 250, 5_000);
    let mut state = CircuitState::new(2);
    assert_eq!(state.register_failure_with(1_000, &s, 0), None);
    assert_eq!(state.register_failure_with(1_500, &s, 0), None);
    assert_eq!(state.failure_count, 2);
    assert!(!state.is_open(3_499));
    assert_eq!(state.failure_count, 2);
    assert!(!state.is_open(3_500));
    assert_eq!(state.failure_count, 0);
    assert_eq!(state.last_failure, None);
}

#[test]
fn stale_count_restarts_on_the_next_failure() {
    let s = settings(3, 250, 5_000);
    let mut state = CircuitState::new(1);
    assert_eq!(state.register_failure_with(0, &s, 0), None);
    assert_eq!(state.register_failure_with(10, &s, 0), None);
    assert_eq!(state.register_failure_with(1_010, &s, 0), None);
    assert_eq!(state.failure_count, 1);
    assert_eq!(state.last_failure, Some(1_010));
}

#[test]
fn success_recovers_fully() {
    let s = settings(1, 250, 5_000);
    let mut state = CircuitState::new(180);
    assert!(state.register_failure_with(7, &s, 3).is_some());
    state.register_success();
    assert_eq!(state.failure_count, 0);
    assert_eq!(state.open_until, None);
    assert_eq!(state.last_failure, None);
    assert!(!state.is_open_now(8));
}

#[test]
fn failure_count_stops_at_its_ceiling() {
    let s = settings(u32::MAX, 250, 5_000);
    let mut state = CircuitState::new(180);
    state.failure_count = u32::MAX - 1;
    state.last_failure = Some(0);
    assert_eq!(state.register_failure_with(1, &s, 0), Some(250));
    assert_eq!(state.failure_count, u32::MAX);
    assert_eq!(state.register_failure_with(2, &s, 0), Some(250));
    assert_eq!(state.failure_count, u32::MAX);
}

#[test]
fn a_cooldown_ends_no_later_than_the_clock() {
    let s = settings(1, 250, 5_000);
    let mut state = CircuitState::new(180);
    assert_eq!(state.register_failure_with(u64::MAX - 10, &s, 0), Some(250));
    assert_eq!(state.open_until, Some(u64::MAX));
    assert!(state.is_open_now(u64::MAX - 1));
    assert!(!state.is_open_now(u64::MAX));
}

#[test]
fn a_reset_window_is_never_below_one_second() {
    let s = settings(3, 250, 5_000);
    let mut state = CircuitState::new(0);
    assert_eq!(state.register_failure_with(5, &s, 0), None);
    assert_eq!(state.register_failure_with(5, &s, 0), None);
    assert_eq!(state.register_failure_with(5, &s, 0), Some(250));
    assert_eq!(state.failure_count, 3);
}
