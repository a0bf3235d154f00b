//! Revision-tracking core of an incremental computation engine.
//!
//! The crate provides the substrate a memoized ("derived") query layer is
//! built on: a monotonically increasing revision counter with a write-barrier
//! discipline, stamped-value storage for leaf ("input") queries, and a
//! call-stack based cycle guard.

pub mod input;
pub mod revision;
pub mod runtime;
