//! Durable checkpoint adapters.
pub mod file;
pub mod load;
pub mod objects;
pub mod sql;
