use payme_backend::ratelimit::IpAddress;
use payme_backend::ratelimit::RateLimitConfig;
use payme_backend::ratelimit::RateLimitKey;
use payme_backend::ratelimit::RateLimitResult;
use payme_backend::ratelimit::RateLimiter;
use payme_backend::ratelimit::TokenBucket;

const SEC: u64 = 1_000_000_000;
const MILLI: u64 = 1_000_000;

fn config(requests: u32, window: u64) -> RateLimitConfig {
    RateLimitConfig { requests_per_window: requests, window_duration: window, cleanup_interval: 300 * SEC }
}

const HOME: IpAddress = IpAddress::V4(0x7f00_0001);
const AWAY: IpAddress = IpAddress::V6(1);

#[test]
fn default_config_is_a_hundred_a_minute() {
    let config = RateLimitConfig::default();
    assert_eq!(config.requests_per_window, 100);
    assert_eq!(config.window_duration, 60 * SEC);
    assert_eq!(config.cleanup_interval, 300 * SEC);
}

#[test]
fn keys_of_different_kinds_differ() {
    assert_ne!(RateLimitKey::Ip(IpAddress::V4(7)), RateLimitKey::User(7));
    assert_ne!(RateLimitKey::Ip(IpAddress::V4(7)), RateLimitKey::IpUser(IpAddress::V4(7), 7));
    assert_ne!(RateLimitKey::User(7), RateLimitKey::IpUser(IpAddress::V4(7), 7));
    assert_ne!(IpAddress::V4(1), IpAddress::V6(1));
    assert_eq!(RateLimitKey::IpUser(AWAY, 3), RateLimitKey::IpUser(AWAY, 3));
}

#[test]
fn bucket_starts_full() {
    let mut bucket = TokenBucket::new(5, 5 * SEC, 100);
    assert_eq!(bucket.max_tokens(), 5);
    assert_eq!(bucket.last_refill(), 100);
    assert_eq!(bucket.available_tokens(100), 5);
    assert_eq!(bucket.time_until_token(), 0);
}

#[test]
fn bucket_admits_its_capacity_and_no_more() {
    let mut bucket = TokenBucket::new(4, 2 * SEC, 0);
    assert!(bucket.try_consume(0));
    assert!(bucket.try_consume(0));
    assert!(bucket.try_consume(0));
    assert!(bucket.try_consume(0));
    assert!(!bucket.try_consume(0));
    assert!(!bucket.try_consume(0));
}

#[test]
fn bucket_earns_one_token_in_its_share_of_the_window() {
    let mut bucket = TokenBucket::new(4, 2 * SEC, 0);
    let mut taken = 0;
    while bucket.try_consume(0) {
        taken += 1;
    }
    assert_eq!(taken, 4);
    assert!(!bucket.try_consume(500 * MILLI - 1));
    assert!(bucket.try_consume(500 * MILLI));
    assert!(!bucket.try_consume(500 * MILLI));
}

#[test]
fn bucket_of_five_in_five_seconds_asks_to_wait_one_second() {
    let mut bucket = TokenBucket::new(5, 5 * SEC, 0);
    let mut i = 0;
    while i < 5 {
        assert!(bucket.try_consume(0));
        i += 1;
    }
    assert!(!bucket.try_consume(0));
    assert_eq!(bucket.time_until_token(), SEC);
}

#[test]
fn bucket_wait_is_the_least_that_suffices() {
    let mut bucket = TokenBucket::new(3, SEC, 0);
    assert!(bucket.try_consume(0));
    assert!(bucket.try_consume(0));
    assert!(bucket.try_consume(0));
    assert!(!bucket.try_consume(0));
    let wait = bucket.time_until_token();
    assert_eq!(wait, 333_333_334);
    let mut early = bucket;
    assert!(!early.try_consume(wait - 1));
    assert!(bucket.try_consume(wait));
}

#[test]
fn bucket_wait_counts_what_is_already_there() {
    let mut bucket = TokenBucket::new(2, 4 * SEC, 0);
    assert!(bucket.try_consume(0));
    assert!(bucket.try_consume(0));
    assert_eq!(bucket.available_tokens(SEC), 0);
    assert_eq!(bucket.time_until_token(), SEC);
    assert_eq!(bucket.available_tokens(2 * SEC), 1);
    assert_eq!(bucket.time_until_token(), 0);
}

#[test]
fn bucket_refills_no_higher_than_its_capacity() {
    let mut bucket = TokenBucket::new(3, SEC, 0);
    assert!(bucket.try_consume(0));
    assert_eq!(bucket.available_tokens(3600 * SEC), 3);
    assert_eq!(bucket.available_tokens(u64::MAX), 3);
    assert_eq!(bucket.last_refill(), u64::MAX);
}

#[test]
fn bucket_counts_whole_tokens_only() {
    let mut bucket = TokenBucket::new(10, SEC, 0);
    let mut i = 0;
    while i < 10 {
        assert!(bucket.try_consume(0));
        i += 1;
    }
    assert_eq!(bucket.available_tokens(250 * MILLI), 2);
    assert_eq!(bucket.available_tokens(300 * MILLI), 3);
    assert!(bucket.try_consume(300 * MILLI));
    assert_eq!(bucket.available_tokens(300 * MILLI), 2);
}

#[test]
fn bucket_gains_nothing_when_the_clock_goes_back() {
    let mut bucket = TokenBucket::new(2, SEC, 1000);
    assert!(bucket.try_consume(1000));
    assert!(bucket.try_consume(1000));
    assert!(!bucket.try_consume(10));
    assert_eq!(bucket.last_refill(), 10);
}

#[test]
fn bucket_without_window_is_always_full() {
    let mut bucket = TokenBucket::new(1, 0, 0);
    assert!(bucket.try_consume(0));
    assert_eq!(bucket.time_until_token(), 0);
    assert!(bucket.try_consume(0));
    assert_eq!(bucket.available_tokens(0), 1);
}

#[test]
fn bucket_of_no_capacity_admits_nothing() {
    let mut bucket = TokenBucket::new(0, SEC, 0);
    assert!(!bucket.try_consume(0));
    assert_eq!(bucket.time_until_token(), u64::MAX);
    assert!(!bucket.try_consume(3600 * SEC));
    assert_eq!(bucket.available_tokens(3600 * SEC), 0);
    assert_eq!(bucket.time_until_token(), u64::MAX);
    let mut instant = TokenBucket::new(0, 0, 0);
    assert!(!instant.try_consume(5));
    assert_eq!(instant.time_until_token(), u64::MAX);
}

#[test]
fn bucket_of_largest_capacity_and_window_does_not_overflow() {
    let mut bucket = TokenBucket::new(u32::MAX, u64::MAX, 0);
    assert!(bucket.try_consume(u64::MAX));
    assert_eq!(bucket.available_tokens(u64::MAX), u32::MAX - 1);
}

#[test]
fn limiter_starts_empty() {
    let limiter = RateLimiter::new(config(5, 5 * SEC));
    assert_eq!(limiter.len(), 0);
    assert_eq!(limiter.config(), config(5, 5 * SEC));
}

#[test]
fn sixth_request_in_a_burst_is_refused_for_a_second() {
    let mut limiter = RateLimiter::new(config(5, 5 * SEC));
    let mut i: u32 = 0;
    while i < 5 {
        let result = limiter.check_rate_limit_ip_at(HOME, 0);
        assert_eq!(
            result,
            RateLimitResult { allowed: true, limit: 5, remaining: 4 - i, retry_after: None }
        );
        i += 1;
    }
    let result = limiter.check_rate_limit_ip_at(HOME, 0);
    assert_eq!(
        result,
        RateLimitResult { allowed: false, limit: 5, remaining: 0, retry_after: Some(SEC) }
    );
}

#[test]
fn sixth_request_on_the_clock_is_refused() {
    let mut limiter = RateLimiter::new(config(5, 3600 * SEC));
    let mut i: u32 = 0;
    while i < 5 {
        assert!(limiter.check_rate_limit_user(9).allowed);
        i += 1;
    }
    let result = limiter.check_rate_limit_user(9);
    assert!(!result.allowed);
    assert_eq!(result.limit, 5);
    assert_eq!(result.remaining, 0);
    assert!(result.retry_after.is_some());
    assert!(result.retry_after.unwrap() <= 720 * SEC);
    assert!(limiter.check_rate_limit_ip(HOME).allowed);
    assert!(limiter.check_rate_limit_combined(AWAY, 10).allowed);
}

#[test]
fn refused_request_is_admitted_after_the_wait() {
    let mut limiter = RateLimiter::new(config(2, 10 * SEC));
    assert!(limiter.check_rate_limit_user_at(1, 0).allowed);
    assert!(limiter.check_rate_limit_user_at(1, 0).allowed);
    let refused = limiter.check_rate_limit_user_at(1, SEC);
    assert_eq!(
        refused,
        RateLimitResult { allowed: false, limit: 2, remaining: 0, retry_after: Some(4 * SEC) }
    );
    let admitted = limiter.check_rate_limit_user_at(1, 5 * SEC);
    assert_eq!(
        admitted,
        RateLimitResult { allowed: true, limit: 2, remaining: 0, retry_after: None }
    );
}

#[test]
fn every_key_has_its_own_bucket() {
    let mut limiter = RateLimiter::new(config(1, 60 * SEC));
    assert!(limiter.check_rate_limit_ip_at(IpAddress::V4(7), 0).allowed);
    assert!(!limiter.check_rate_limit_ip_at(IpAddress::V4(7), 0).allowed);
    assert!(limiter.check_rate_limit_user_at(7, 0).allowed);
    assert!(limiter.check_rate_limit_ip_at(IpAddress::V6(7), 0).allowed);
    assert!(limiter.check_rate_limit_ip_at(IpAddress::V4(8), 0).allowed);
    assert!(!limiter.check_rate_limit_user_at(7, 0).allowed);
    assert_eq!(limiter.len(), 4);
}

#[test]
fn combined_check_takes_a_token_from_each_bucket() {
    let mut limiter = RateLimiter::new(config(3, 60 * SEC));
    let result = limiter.check_rate_limit_combined_at(HOME, 1, 0);
    assert_eq!(result, RateLimitResult { allowed: true, limit: 3, remaining: 2, retry_after: None });
    assert_eq!(limiter.len(), 3);
    assert_eq!(limiter.check_rate_limit_ip_at(HOME, 0).remaining, 1);
    assert_eq!(limiter.check_rate_limit_user_at(1, 0).remaining, 1);
    assert_eq!(limiter.check_rate_limit_combined_at(HOME, 1, 0).remaining, 1);
}

#[test]
fn refused_address_does_not_touch_the_principal() {
    let mut limiter = RateLimiter::new(config(3, 60 * SEC));
    assert!(limiter.check_rate_limit_user_at(1, 0).allowed);
    let mut i = 0;
    while i < 3 {
        assert!(limiter.check_rate_limit_ip_at(HOME, 0).allowed);
        i += 1;
    }
    let refused = limiter.check_rate_limit_combined_at(HOME, 1, 0);
    assert_eq!(
        refused,
        RateLimitResult { allowed: false, limit: 3, remaining: 0, retry_after: Some(20 * SEC) }
    );
    assert_eq!(limiter.len(), 2);
    let after = limiter.check_rate_limit_user_at(1, 0);
    assert_eq!(after, RateLimitResult { allowed: true, limit: 3, remaining: 1, retry_after: None });
}

#[test]
fn refused_address_makes_no_bucket_for_the_principal() {
    let mut limiter = RateLimiter::new(config(1, 60 * SEC));
    assert!(limiter.check_rate_limit_ip_at(HOME, 0).allowed);
    assert!(!limiter.check_rate_limit_combined_at(HOME, 1, 0).allowed);
    assert_eq!(limiter.len(), 1);
    assert_eq!(limiter.check_rate_limit_user_at(1, 0).remaining, 0);
}

#[test]
fn refused_principal_does_not_touch_the_pair() {
    let mut limiter = RateLimiter::new(config(2, 60 * SEC));
    assert!(limiter.check_rate_limit_user_at(1, 0).allowed);
    assert!(limiter.check_rate_limit_user_at(1, 0).allowed);
    let refused = limiter.check_rate_limit_combined_at(HOME, 1, 0);
    assert!(!refused.allowed);
    assert_eq!(refused.retry_after, Some(30 * SEC));
    assert_eq!(limiter.len(), 2);
    assert_eq!(limiter.check_rate_limit_ip_at(HOME, 0).remaining, 0);
}

#[test]
fn pair_has_a_ceiling_of_its_own() {
    let mut limiter = RateLimiter::new(config(2, 60 * SEC));
    assert!(limiter.check_rate_limit_combined_at(HOME, 1, 0).allowed);
    assert!(limiter.check_rate_limit_combined_at(HOME, 1, 0).allowed);
    assert!(!limiter.check_rate_limit_combined_at(HOME, 1, 0).allowed);
    assert!(limiter.check_rate_limit_combined_at(AWAY, 2, 0).allowed);
}

#[test]
fn idle_bucket_is_dropped_and_active_one_stays() {
    let mut limiter = RateLimiter::new(config(3, 60 * SEC));
    assert!(limiter.check_rate_limit_ip_at(HOME, 0).allowed);
    assert!(limiter.check_rate_limit_ip_at(HOME, 0).allowed);
    assert!(limiter.check_rate_limit_user_at(1, 1).allowed);
    assert!(limiter.check_rate_limit_user_at(1, 1).allowed);
    limiter.cleanup_idle_at(600 * SEC - 1);
    assert_eq!(limiter.len(), 2);
    limiter.cleanup_idle_at(600 * SEC);
    assert_eq!(limiter.len(), 2);
    limiter.cleanup_idle_at(600 * SEC + 1);
    assert_eq!(limiter.len(), 1);
    let kept = limiter.check_rate_limit_user_at(1, 1);
    assert_eq!(kept.remaining, 0);
    let fresh = limiter.check_rate_limit_ip_at(HOME, 600 * SEC + 1);
    assert_eq!(fresh.remaining, 2);
}

#[test]
fn bucket_checked_exactly_the_idle_timeout_ago_stays_as_it_is() {
    let mut limiter = RateLimiter::new(config(3, 3600 * SEC));
    assert!(limiter.check_rate_limit_ip_at(HOME, 5).allowed);
    assert!(limiter.check_rate_limit_ip_at(HOME, 5).allowed);
    limiter.cleanup_idle_at(600 * SEC + 5);
    assert_eq!(limiter.len(), 1);
    let kept = limiter.check_rate_limit_ip_at(HOME, 5);
    assert_eq!(kept, RateLimitResult { allowed: true, limit: 3, remaining: 0, retry_after: None });
    limiter.cleanup_idle_at(600 * SEC + 6);
    assert_eq!(limiter.len(), 0);
}

#[test]
fn limiter_of_no_requests_refuses_every_check() {
    let never = RateLimitResult { allowed: false, limit: 0, remaining: 0, retry_after: Some(u64::MAX) };
    let mut limiter = RateLimiter::new(config(0, 60 * SEC));
    assert_eq!(limiter.check_rate_limit_ip_at(HOME, 0), never);
    assert_eq!(limiter.check_rate_limit_user_at(1, 0), never);
    assert_eq!(limiter.check_rate_limit_ip_at(HOME, 3600 * SEC), never);
    assert_eq!(limiter.check_rate_limit_combined_at(AWAY, 2, 0), never);
    assert_eq!(limiter.len(), 3);
    assert_eq!(limiter.check_rate_limit_ip(HOME), never);
    assert_eq!(limiter.check_rate_limit_combined(HOME, 1), never);
    assert_eq!(limiter.len(), 3);
}

#[test]
fn limiter_of_no_requests_and_no_window_refuses_every_check() {
    let never = RateLimitResult { allowed: false, limit: 0, remaining: 0, retry_after: Some(u64::MAX) };
    let mut limiter = RateLimiter::new(config(0, 0));
    assert_eq!(limiter.check_rate_limit_user_at(1, 0), never);
    assert_eq!(limiter.check_rate_limit_user_at(1, 100), never);
}

#[test]
fn sweep_before_any_check_time_drops_nothing() {
    let mut limiter = RateLimiter::new(config(3, 60 * SEC));
    assert!(limiter.check_rate_limit_ip_at(HOME, 1000 * SEC).allowed);
    limiter.cleanup_idle_at(0);
    assert_eq!(limiter.len(), 1);
}

#[test]
fn sweep_on_the_clock_keeps_fresh_buckets() {
    let mut limiter = RateLimiter::new(config(3, 60 * SEC));
    assert!(limiter.check_rate_limit_ip(HOME).allowed);
    limiter.cleanup_idle();
    assert_eq!(limiter.len(), 1);
    assert!(limiter.now() <= limiter.now());
}
