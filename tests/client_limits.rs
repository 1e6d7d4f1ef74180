use smskit::rate_limit::{RateLimitStatus, RateLimiter, CLIENT_CLEANUP_INTERVAL, CLIENT_MAX_IDLE};

const SECOND: u64 = 1_000_000_000;

#[test]
fn rate_limiter_allows_initial_requests() {
    let mut limiter = RateLimiter::new(60, 10);
    let ip = "127.0.0.1";
    for _ in 0..10 {
        assert!(limiter.check_rate_limit(ip));
    }
    assert!(!limiter.check_rate_limit(ip));
}

#[test]
fn rate_limiter_refills_tokens() {
    let mut limiter = RateLimiter::new(60, 5);
    let ip = "127.0.0.1";
    for _ in 0..5 {
        assert!(limiter.check_rate_limit(ip));
    }
    assert!(!limiter.check_rate_limit(ip));
}

#[test]
fn rate_limiter_tracks_multiple_ips() {
    let mut limiter = RateLimiter::new(60, 3);
    let ip1 = "127.0.0.1";
    let ip2 = "192.168.1.1";

    assert!(limiter.check_rate_limit(ip1));
    assert!(limiter.check_rate_limit(ip2));

    let status1 = limiter.get_status(ip1).unwrap();
    let status2 = limiter.get_status(ip2).unwrap();

    assert_eq!(status1.remaining, 2);
    assert_eq!(status2.remaining, 2);
    assert_eq!(status1.limit, 3);
    assert_eq!(status2.limit, 3);
}

#[test]
fn client_tokens_refill_by_whole_seconds() {
    // 60 per minute: one token a second.
    let mut limiter = RateLimiter::new(60, 2);
    let ip = "10.0.0.1";
    assert!(limiter.check_rate_limit_at(ip, 0));
    assert!(limiter.check_rate_limit_at(ip, 0));
    assert!(!limiter.check_rate_limit_at(ip, 999_999_999));
    assert!(limiter.check_rate_limit_at(ip, SECOND));
    assert!(!limiter.check_rate_limit_at(ip, SECOND));
    // Much later the client holds a full burst again, no more.
    assert_eq!(
        limiter.get_status_at(ip, 100 * SECOND),
        Some(RateLimitStatus { remaining: 2, limit: 2, reset_time: 2 * SECOND })
    );
}

#[test]
fn unknown_client_has_no_status() {
    let limiter = RateLimiter::new(60, 2);
    assert_eq!(limiter.get_status_at("10.0.0.9", 0), None);
}

#[test]
fn stale_clients_are_dropped_when_cleanup_is_due() {
    let mut limiter = RateLimiter::new(6, 1);
    assert!(limiter.check_rate_limit_at("old", 0));
    assert!(!limiter.check_rate_limit_at("old", 0));
    // A request after the cleanup interval drops the stale client first, so
    // it comes back with a full burst.
    let later = CLIENT_MAX_IDLE + CLIENT_CLEANUP_INTERVAL + 1;
    assert!(limiter.check_rate_limit_at("other", later));
    let status = limiter.get_status_at("old", later);
    assert_eq!(status, None);
    assert!(limiter.check_rate_limit_at("old", later));
}

#[test]
fn reset_time_is_one_refill_period_after_the_last_refill() {
    let mut limiter = RateLimiter::new(20, 5);
    assert!(limiter.check_rate_limit_at("a", 7 * SECOND));
    let status = limiter.get_status_at("a", 7 * SECOND).unwrap();
    assert_eq!(status.remaining, 4);
    assert_eq!(status.reset_time, 10 * SECOND);
}
