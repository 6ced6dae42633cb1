//! Adaptive performance tuning: tunable parameters, the safety rules that
//! guard their changes, and the circuit breaker.

pub mod binary64;
pub mod parameters;
pub mod safety;
pub mod config_integration;
pub mod tuning_engine;
pub mod metrics;
