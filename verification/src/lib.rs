//! Segmented parallel copy engine.
//!
//! The engine copies one large regular file by splitting it into contiguous,
//! disjoint byte-range segments and copying the segments concurrently. This
//! crate holds the verified core: segment planning, the byte-level copy model,
//! per-segment chunked copying, bounded-concurrency scheduling decisions, and
//! configuration validation. File I/O, argument parsing and logging live in a
//! thin unverified shell around the library.

pub mod copier;
pub mod model;
pub mod options;
pub mod planner;
pub mod scheduler;
pub mod segment;
pub mod setup;
pub mod types;
