//! An in-process metrics exporter: a registry of counters, gauges and
//! histograms, the text exposition of its contents, and the routing and
//! lifecycle rules of the endpoint that serves it.

pub mod bytes;
pub mod error;
pub mod exposition;
pub mod laws;
pub mod metrics;
pub mod registry;
pub mod route;
pub mod server;
