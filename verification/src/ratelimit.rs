//! A token-bucket rate limiter keyed by address, by principal, or by both.

pub mod bucket;
pub mod key;
pub mod laws;
pub mod limiter;

pub use bucket::BucketView;
pub use bucket::TokenBucket;
pub use key::IpAddress;
pub use key::RateLimitKey;
pub use limiter::EntryState;
pub use limiter::LimiterView;
pub use limiter::RateLimitConfig;
pub use limiter::RateLimitResult;
pub use limiter::RateLimiter;
