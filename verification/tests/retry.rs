use mycloud::retry::{backoff_delay, should_retry};
use std::time::Duration;

#[test]
fn test_backoff_delay() {
    let base = Duration::from_secs(2);
    let max = Duration::from_secs(60);

    assert_eq!(backoff_delay(0, base, max), Duration::from_secs(2));
    assert_eq!(backoff_delay(1, base, max), Duration::from_secs(4));
    assert_eq!(backoff_delay(2, base, max), Duration::from_secs(8));
    assert_eq!(backoff_delay(3, base, max), Duration::from_secs(16));
    assert_eq!(backoff_delay(5, base, max), Duration::from_secs(60)); // capped
}

#[test]
fn test_should_retry() {
    assert!(should_retry(0, 5));
    assert!(should_retry(4, 5));
    assert!(!should_retry(5, 5));
    assert!(!should_retry(6, 5));
}

#[test]
fn backoff_saturates_for_large_attempts() {
    let base = Duration::from_secs(2);
    let max = Duration::from_secs(120);
    assert_eq!(backoff_delay(40, base, max), max);
    assert_eq!(backoff_delay(6, base, max), Duration::from_secs(120));
    assert!(backoff_delay(4, base, max) <= backoff_delay(5, base, max));
}
