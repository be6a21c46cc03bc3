//! Core logic of a rate-paced network load generator: payload selection,
//! per-window send accounting, statistics aggregation with a packet budget,
//! and the orchestration rules of a run.
//!
//! Everything that talks to the outside world — transports, timers, channels,
//! the command line — lives in the surrounding application; this crate holds
//! the decisions those loops make, each under a verified contract.

pub mod payload;
pub mod sender;
pub mod stats;
pub mod manager;
