//! A provider of calls to the Kiro API over many accounts, verified with Verus: failover between
//! accounts, retries with backoff, limits on requests in flight and on requests per minute, and
//! the requests themselves.
//!
//! The library decides; sending requests, waiting and reading the environment are left to whoever
//! runs it.
pub mod backoff;
pub mod clients;
pub mod concurrency;
pub mod endpoint;
pub mod headers;
pub mod json;
pub mod provider;
pub mod request;
pub mod retry;
pub mod rpm_limiter;
pub mod settings;
pub mod status;
pub mod text;
