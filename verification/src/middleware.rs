//! The decisions of the request interceptors. Each interceptor is a
//! function from what it has seen of a request to what is to be done next;
//! whoever runs it performs the action and comes back with the outcome.

pub mod audit;
pub mod cache;
pub mod ratelimit;
pub mod response;

pub use response::Header;
pub use response::Reply;
