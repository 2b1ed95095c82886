//! Kafka-compatible sources.
pub mod client;
pub mod cursor;
pub mod listing;
pub mod offsets;
pub mod received;
pub mod source;
