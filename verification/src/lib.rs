//! Reset-safe deltas and rates over an append-only log of usage samples.
//!
//! A collector records, at intervals, how many tokens a session has consumed
//! and how many bytes have crossed the network. The counters are cumulative
//! but may fall back at any time: a session starts, a process restarts, a log
//! is compacted. This library answers two questions over such a log without
//! ever reporting a fall as usage: what is happening now (`live`), and how
//! much changed over the last days (`rollup`). A quantity that cannot be
//! determined is absent, never zero.

pub mod clock;
pub mod config;
pub mod delta;
pub mod live;
pub mod log;
pub mod rollup;
pub mod sample;
