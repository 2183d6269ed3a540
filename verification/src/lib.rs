//! Request-boundary primitives of a budget-tracking backend: a bounded
//! least-recently-used cache with per-entry time-to-live, a token-bucket
//! rate limiter keyed by address and principal, and the decisions that the
//! request interceptors and handlers take around them.
//!
//! The library holds state and decides; it does not wait, lock, listen or
//! store. Whoever uses it from many tasks keeps each cache and each limiter
//! behind a lock of its own and calls the sweeps from a timer.
//!
//! Every type has a view, a plain mathematical value, and every function
//! says in its contract what it returns and how it changes the view. The
//! modules `cache::laws` and `ratelimit::laws` state what follows for every
//! cache and every limiter.

pub mod audit;
pub mod cache;
pub mod clock;
pub mod handlers;
pub mod middleware;
pub mod ratelimit;
pub mod text;
