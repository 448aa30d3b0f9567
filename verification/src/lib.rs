//! A single-device telemetry exporter's core: parse the device's JSON
//! status payload into an exact decimal reading, keep the latest reading in
//! a three-gauge registry, and render the registry as pull-based metrics
//! exposition text.  Polling, HTTP transport and logging live outside this
//! crate; everything that decides what is published stands here, verified.

pub mod client;
pub mod decimal;
pub mod metrics;
pub mod reading;
pub mod scheduler;
pub mod text;
