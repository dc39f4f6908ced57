//! Rate-limiting core of an API gateway: three admission algorithms behind one
//! contract, a keyed bucket manager with idle eviction, and the composition of
//! global, route and client tiers.
//!
//! Time is measured in nanoseconds: a timestamp is a `u64` count of nanoseconds
//! since an origin chosen by the caller, and a duration is a `u64` count of
//! nanoseconds.

pub mod algorithm;
pub mod token_bucket;
pub mod sliding_log;
pub mod sliding_counter;
pub mod rate_limiter;
pub mod metrics;
pub mod tiers;
pub mod http_error;
pub mod routing;
pub mod config;
