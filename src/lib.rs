//! A log pipeline: records are filtered by severity once, then fanned out to
//! a bounded queue per sink, drained by one worker per sink, and torn down in
//! a fixed order.
pub mod level;
pub mod record;
pub mod filter;
pub mod channel;
pub mod tee;
pub mod logger;
pub mod config;
pub mod laws;
