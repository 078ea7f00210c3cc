//! Trace-context propagation over HTTP headers.
//!
//! The W3C `traceparent` and `tracestate` formats are encoded and decoded here, over a
//! header carrier with HTTP's case-insensitive names, together with the
//! lifecycle that every request span of the middleware goes through.

pub mod hex;
pub mod trace_context;
pub mod carrier;
pub mod http_injector;
pub mod middleware;
pub mod trace_state;
