//! A columnar batching and encoding engine for blockchain execution-trace
//! records.
//!
//! Typed records (blocks, extrinsics, calls, events) are decomposed into
//! per-field column buffers with per-row presence tracking, accumulated into
//! row groups under configurable thresholds, reordered by a sort key before
//! each batch is committed, and handed to a columnar file writer as fully
//! materialized chunks.  The physical on-disk encoding, input decoding and
//! the metadata sidecar are external collaborators; this crate holds the
//! engine itself, with its invariants stated and machine-checked.

pub mod accumulator;
pub mod cells;
pub mod chunk;
pub mod column;
pub mod columns;
pub mod dispatcher;
pub mod entities;
pub mod error;
pub mod ids;
pub mod laws;
pub mod pipeline;
pub mod rotation;
pub mod schema;
pub mod sort;
pub mod tables;
