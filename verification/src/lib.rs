//! Transparent support for the HTTP `Retry-After` response header.
//!
//! A server may answer a request with a `Retry-After` header asking the
//! client to back off until a later point in time.  This library keeps a
//! per-destination cache of such deadlines: response bookkeeping records or
//! clears a deadline for the destination a response came from, and the
//! pre-request step reports how long a new request to that destination must
//! still wait.

pub mod cache;
pub mod laws;
pub mod middleware;
pub mod parse;
pub mod timestamp;

pub use cache::DeadlineCache;
pub use middleware::RetryAfterMiddleware;
pub use parse::parse_delta_seconds;
pub use parse::parse_retry_value;
pub use timestamp::Timestamp;
pub use timestamp::WaitDuration;
