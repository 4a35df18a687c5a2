//! Renames media files to a canonical timestamp-derived name.
//!
//! The timestamp is resolved per file through a fixed fallback chain of
//! metadata sources, target names are collected into a plan that is ordered
//! by timestamp, and a batch with two files resolving to the same timestamp
//! is refused before any rename is planned.

pub mod adapters;
pub mod confirm;
pub mod plan;
pub mod resolver;
pub mod text;
