use nftp::errors::NftpError;
use nftp::retry::{delivery_outcome, replay_error_sends, retry_delay, RetrySchedule};

#[test]
fn retry_delays_are_4x_apart() {
    assert_eq!(retry_delay(0), 4);
    assert_eq!(retry_delay(1), 16);
    assert_eq!(retry_delay(2), 64);
    assert_eq!(retry_delay(3), 256);
    assert_eq!(retry_delay(4), 1024);
    for i in 1..5u8 {
        assert_eq!(retry_delay(i), 4 * retry_delay(i - 1));
    }
}

#[test]
fn schedule_hands_out_five_delays_then_gives_up() {
    let mut sched = RetrySchedule::new();
    assert_eq!(sched.record_failure(), Some(4));
    assert_eq!(sched.record_failure(), Some(16));
    assert_eq!(sched.record_failure(), Some(64));
    assert_eq!(sched.record_failure(), Some(256));
    assert_eq!(sched.record_failure(), Some(1024));
    assert_eq!(sched.record_failure(), None);
    assert_eq!(sched.record_failure(), None);
}

#[test]
fn three_failures_mean_exactly_three_retries() {
    let outcomes = vec![false, false, false, true, false, false];
    let (delays, delivered) = replay_error_sends(&outcomes);
    assert_eq!(delays, vec![4, 16, 64]);
    assert!(delivered);
}

#[test]
fn success_on_first_attempt_means_no_retry() {
    let outcomes = vec![true, false, false, false, false, false];
    let (delays, delivered) = replay_error_sends(&outcomes);
    assert_eq!(delays, Vec::<u64>::new());
    assert!(delivered);
}

#[test]
fn success_on_last_attempt_uses_the_whole_schedule() {
    let outcomes = vec![false, false, false, false, false, true];
    let (delays, delivered) = replay_error_sends(&outcomes);
    assert_eq!(delays, vec![4, 16, 64, 256, 1024]);
    assert!(delivered);
}

#[test]
fn six_failures_abandon_delivery_after_five_retries() {
    let outcomes = vec![false, false, false, false, false, false];
    let (delays, delivered) = replay_error_sends(&outcomes);
    assert_eq!(delays, vec![4, 16, 64, 256, 1024]);
    assert!(!delivered);
}

#[test]
fn a_success_stops_further_retries() {
    // outcomes past the first success never matter
    let outcomes = vec![false, true, false, false, false, false];
    let (delays, delivered) = replay_error_sends(&outcomes);
    assert_eq!(delays, vec![4]);
    assert!(delivered);
}

#[test]
fn abandoned_delivery_is_a_response_delivery_failure() {
    assert_eq!(delivery_outcome(true), Ok(()));
    assert_eq!(delivery_outcome(false), Err(NftpError::ResponseDeliveryFailure));
}
