//! Typed, ordered linear and fanout pipelines.
pub mod branch;
pub mod checkpoint;
pub mod commit;
pub mod cursor;
pub mod error;
pub mod fanout;
pub mod history;
pub mod identity;
pub mod kafka;
pub mod num;
pub mod pipeline;
pub mod policy;
pub mod record;
pub mod runner;
pub mod sink;
pub mod source;
pub mod storage;
pub mod telemetry;
pub mod text;
pub mod time;
pub mod transform;
