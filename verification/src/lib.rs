//! Verified core of a three-stage log shipping pipeline: a collector that
//! tails container output, a gateway that authenticates and republishes
//! records, and a committer that acknowledges a broker message only after the
//! record has been written.
//!
//! Everything that waits on the outside world (timers, sockets, files, the
//! broker) lives with the caller. This crate holds the rules: what a valid
//! record is, which containers get a reader, when the watermark moves, when an
//! offset may be committed.

pub mod agent;
pub mod columns;
pub mod common;
pub mod gateway;
pub mod persistor;
pub mod tree;
pub mod unrolled_linked_list;
