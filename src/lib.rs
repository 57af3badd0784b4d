//! Samples of a host's CPU and memory use, their wire payload, and the
//! decisions of a publisher that delivers them to a message broker.
pub mod codec;
pub mod config;
pub mod decimal;
pub mod publisher;
pub mod scheduler;
pub mod snapshot;
