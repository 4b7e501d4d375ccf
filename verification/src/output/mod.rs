//! What is published: the payloads of the three endpoints, a circuit breaker
//! for each of them and a cache of the last payloads that went through.

pub mod breaker;
pub mod payload;
pub mod publisher;

pub use breaker::CircuitBreaker;
pub use payload::{BatteryData, LevelWh, OdometerData, Payload, TirePressureData};
pub use publisher::{PublishCache, Publisher};
