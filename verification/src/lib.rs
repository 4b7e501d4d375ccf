//! Telemetry core of the OBD daemon.

pub mod adapter;
pub mod cli;
pub mod config;
pub mod logging;
pub mod metrics;
pub mod numbers;
pub mod output;
pub mod profile;
pub mod scheduler;
pub mod text;
