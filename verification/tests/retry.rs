use pubsys_ecr::retry::{
    backoff_delays, push_failed, retry_notice, retry_strategy, MAX_ATTEMPTS,
};

#[test]
fn delays_grow_up_to_the_longest() {
    assert_eq!(backoff_delays(), vec![5_000_000_000, 30_000_000_000]);
}

#[test]
fn one_wait_for_each_try_after_the_first() {
    for _ in 0..200 {
        let waits = retry_strategy();
        assert_eq!(waits.len(), MAX_ATTEMPTS - 1);
        assert!(waits[0] <= 5_000_000_000);
        assert!(waits[1] <= 30_000_000_000);
    }
}

#[test]
fn waits_are_jittered() {
    let delays = backoff_delays();
    assert!((0..50).any(|_| retry_strategy() != delays));
    let first = retry_strategy();
    assert!((0..50).any(|_| retry_strategy() != first));
}

#[test]
fn retries_are_announced_from_the_second_wait_on() {
    assert_eq!(retry_notice(0), None);
    assert_eq!(retry_notice(1), Some("Retrying: attempt = 2".to_owned()));
}

#[test]
fn every_failed_push_is_tried_again() {
    for reason in ["denied", ""] {
        let (notice, again) = push_failed("reg", reason);
        assert_eq!(notice, format!("Failed to push to reg: {reason}"));
        assert!(again);
    }
}
