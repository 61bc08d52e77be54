//! Telemetry agent core: retry and backoff decisions, probe-output parsing,
//! the last-known status of the sampling pipeline and the configuration store.
pub mod retry;
pub mod text;
pub mod data;
pub mod status;
pub mod config;
