//! Stepwise sorting animation core.
//!
//! Three classic comparison sorts are decomposed into discrete, resumable
//! passes: an external tick advances each algorithm by exactly one pass and a
//! renderer reads immutable snapshots of the partially sorted data.  The
//! state machine in this crate is fully verified: every pass preserves the
//! multiset of values, the step counter rises by one per call until it caps
//! at the sequence length, and after that many calls the data is sorted.

pub mod passes;
pub mod sorter;
pub mod session;
pub mod laws;
