//! A bounded-concurrency load-testing engine for an HTTP authentication
//! endpoint: it derives per-request credentials, resolves rotating-port
//! target URLs, classifies authentication responses, coordinates an
//! admission-limited dispatch of a fixed number of requests, and computes
//! aggregate and percentile latency statistics.
//!
//! All latencies are carried as integer microseconds.

pub mod bytes;
pub mod digits;
pub mod dispatch;
pub mod hashing;
pub mod json;
pub mod orchestrator;
pub mod report;
pub mod request;
pub mod resolver;
pub mod response;
pub mod stats;
