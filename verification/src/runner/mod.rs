//! The decisions of a running pipeline, taken one event at a time.
//!
//! A runner holds no source, sink or timer. It is told what happened, and answers with the one
//! thing that is to be done next.
pub mod cadence;
pub mod collecting;
pub mod prefetch;
pub mod units;
