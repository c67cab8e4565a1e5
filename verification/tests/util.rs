use codex_core::util::{backoff, backoff_with_jitter, base_delay};
use std::time::Duration;

#[test]
fn the_delay_doubles_up_to_a_limit() {
    let delays: Vec<u64> = (0..14).map(base_delay).collect();
    assert_eq!(
        delays,
        vec![
            200, 200, 400, 800, 1600, 3200, 6400, 12800, 25600, 51200, 102400, 204800, 204800,
            204800
        ]
    );
    assert_eq!(base_delay(u64::MAX), 204800);
}

#[test]
fn jitter_is_a_percentage_of_the_delay() {
    assert_eq!(backoff_with_jitter(1, 90).as_nanos(), 180_000_000);
    assert_eq!(backoff_with_jitter(1, 90), Duration::from_millis(180));
    assert_eq!(backoff_with_jitter(1, 100), Duration::from_millis(200));
    assert_eq!(backoff_with_jitter(3, 93), Duration::from_millis(744));
    assert_eq!(backoff_with_jitter(u64::MAX, 110), Duration::from_millis(225280));
}

#[test]
fn random_delays_stay_within_a_tenth() {
    for attempt in 0..12 {
        let base = base_delay(attempt);
        for _ in 0..100 {
            let nanos = backoff(attempt).as_nanos() as u64;
            assert_eq!(nanos % 1_000_000, 0);
            let delay = nanos / 1_000_000;
            assert!(10 * delay >= 9 * base && 10 * delay <= 11 * base);
        }
    }
}

#[test]
fn random_delays_vary() {
    let first = backoff(11);
    assert!((0..1000).any(|_| backoff(11) != first));
}
