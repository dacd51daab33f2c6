//! Generation, parsing and aggregation of simple value-change-dump traces.
//!
//! The library builds the full text of a synthetic single-signal trace,
//! counts the toggle events such a trace contains, groups trace files by
//! the integer-named category directory they live in, and renders batch
//! results as JSON for the native boundary.  All file handling, timing and
//! thread-pool plumbing lives outside the library and hands it plain values.

pub mod batch;
pub mod gcd;
pub mod json;
pub mod lines;
pub mod numfmt;
pub mod parser;
pub mod trace;
