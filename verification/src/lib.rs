//! Aggregation-and-encoding pipeline for bike-share station snapshots.
//!
//! A run decodes a set of compressed JSON snapshot files, assigns a stable
//! numeric identifier to each station string key on first sight, accumulates
//! per-station column buffers, and finally seals every station's buffers into
//! columnar output units under a fixed six-column schema.

pub mod aggregate;
pub mod decode;
pub mod emit;
pub mod idtable;
pub mod pipeline;
pub mod series;
pub mod station;
