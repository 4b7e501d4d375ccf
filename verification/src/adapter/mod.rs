//! Transports and the protocol code that they share.

pub mod bluetooth;
pub mod broadcast;
pub mod elm327;
pub mod errors;
pub mod fields;
pub mod link;
pub mod poll;
pub mod run;
pub mod session;
pub mod uds;
pub mod usb;
pub mod wican;

pub use crate::metrics::Metrics;
pub use errors::AdapterError;
