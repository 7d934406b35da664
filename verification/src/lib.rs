//! Windowed statement fetching with ordered reassembly.
//!
//! The library partitions a lookback horizon into fixed-size date windows,
//! plans bounded-concurrency fetch batches, collects the per-window results
//! with per-window fault isolation, reorders the collected records into a
//! deterministic chronological-by-window sequence, and projects them into
//! spreadsheet rows. Network, clock and sink access stay outside; the
//! decisions around them are verified here.

pub mod batch;
pub mod collect;
pub mod config;
pub mod date;
pub mod export;
pub mod record;
pub mod reassemble;
pub mod window;
