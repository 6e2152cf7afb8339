//! A live leaderboard engine: score deltas stream in, are squashed into
//! batches, applied to per-author running totals, ranked into ordered
//! snapshots, and the positional differences between successive snapshots
//! are fanned out to connected viewers together with a full initial
//! snapshot on connect.

pub mod aggregate;
pub mod batcher;
pub mod conn;
pub mod diff;
pub mod engine;
pub mod fanout;
pub mod ingest;
pub mod pipeline;
pub mod ranking;
pub mod state;
pub mod types;
pub mod user_impl;
pub mod wire;
