//! The capture program: configuration, metrics and the stream loop.
pub mod config;
pub mod laws;
pub mod metrics;
pub mod runtime;
