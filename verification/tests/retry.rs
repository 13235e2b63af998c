use batch_transfer::remote::{ErrorClass, RemoteError, Reply};
use batch_transfer::retry::RetryPolicy;

#[test]
fn transient_classes() {
    assert!(ErrorClass::Throttled.is_transient());
    assert!(ErrorClass::Network.is_transient());
    assert!(!ErrorClass::Denied.is_transient());
    assert!(!ErrorClass::Other.is_transient());
}

#[test]
fn delay_doubles_up_to_the_ceiling() {
    let p = RetryPolicy { budget: 10, base_delay_ms: 100, max_delay_ms: 1000 };
    assert_eq!(p.backoff_delay(0), 100);
    assert_eq!(p.backoff_delay(1), 200);
    assert_eq!(p.backoff_delay(2), 400);
    assert_eq!(p.backoff_delay(3), 800);
    assert_eq!(p.backoff_delay(4), 1000);
    assert_eq!(p.backoff_delay(5), 1000);
    assert_eq!(p.backoff_delay(u32::MAX), 1000);
}

#[test]
fn delay_does_not_overflow() {
    let p = RetryPolicy { budget: 100, base_delay_ms: 3, max_delay_ms: u64::MAX };
    assert_eq!(p.backoff_delay(10), 3 * 1024);
    assert_eq!(p.backoff_delay(62), 3u64 << 62);
    assert_eq!(p.backoff_delay(63), u64::MAX);
    assert_eq!(p.backoff_delay(64), u64::MAX);
    assert_eq!(p.backoff_delay(4_000_000_000), u64::MAX);
}

#[test]
fn delay_with_no_base_is_zero() {
    let p = RetryPolicy { budget: 3, base_delay_ms: 0, max_delay_ms: 1000 };
    assert_eq!(p.backoff_delay(0), 0);
    assert_eq!(p.backoff_delay(7), 0);
    assert_eq!(p.backoff_delay(u32::MAX), 0);
}

#[test]
fn base_above_the_ceiling_waits_the_ceiling() {
    let p = RetryPolicy { budget: 3, base_delay_ms: 5000, max_delay_ms: 1000 };
    assert_eq!(p.backoff_delay(0), 1000);
    assert_eq!(p.backoff_delay(2), 1000);
}

#[test]
fn only_transient_failures_within_the_budget_are_tried_again() {
    let p = RetryPolicy { budget: 2, base_delay_ms: 50, max_delay_ms: 10_000 };
    assert_eq!(p.decide(0, ErrorClass::Throttled), Some(50));
    assert_eq!(p.decide(1, ErrorClass::Network), Some(100));
    assert_eq!(p.decide(2, ErrorClass::Throttled), None);
    assert_eq!(p.decide(0, ErrorClass::Denied), None);
    assert_eq!(p.decide(0, ErrorClass::Other), None);
}

#[test]
fn no_policy_tries_nothing_twice() {
    let p = RetryPolicy::none();
    assert_eq!(p, RetryPolicy { budget: 0, base_delay_ms: 0, max_delay_ms: 0 });
    assert_eq!(p.decide(0, ErrorClass::Throttled), None);
    assert_eq!(p.decide(0, ErrorClass::Network), None);
}

#[test]
fn replies_are_read_off_the_status() {
    assert_eq!(Reply::from_status(200, ""), Reply::Done);
    assert_eq!(Reply::from_status(204, "gone"), Reply::Done);
    assert_eq!(Reply::from_status(299, ""), Reply::Done);
    assert_eq!(Reply::from_status(404, "NoSuchKey"), Reply::NotFound);
    assert_eq!(
        Reply::from_status(403, "AccessDenied"),
        Reply::Failed(RemoteError::new(ErrorClass::Denied, "AccessDenied"))
    );
    assert_eq!(
        Reply::from_status(401, "x"),
        Reply::Failed(RemoteError::new(ErrorClass::Denied, "x"))
    );
    assert_eq!(
        Reply::from_status(503, "SlowDown"),
        Reply::Failed(RemoteError::new(ErrorClass::Throttled, "SlowDown"))
    );
    assert_eq!(
        Reply::from_status(429, "x"),
        Reply::Failed(RemoteError::new(ErrorClass::Throttled, "x"))
    );
    assert_eq!(
        Reply::from_status(504, "x"),
        Reply::Failed(RemoteError::new(ErrorClass::Network, "x"))
    );
    assert_eq!(
        Reply::from_status(408, "x"),
        Reply::Failed(RemoteError::new(ErrorClass::Network, "x"))
    );
    assert_eq!(
        Reply::from_status(500, "x"),
        Reply::Failed(RemoteError::new(ErrorClass::Other, "x"))
    );
    assert_eq!(
        Reply::from_status(301, "x"),
        Reply::Failed(RemoteError::new(ErrorClass::Other, "x"))
    );
    assert_eq!(
        Reply::from_status(199, "x"),
        Reply::Failed(RemoteError::new(ErrorClass::Other, "x"))
    );
    assert_eq!(
        Reply::lost("timed out"),
        Reply::Failed(RemoteError::new(ErrorClass::Network, "timed out"))
    );
}
