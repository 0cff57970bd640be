//! A verified core for a capture-and-ingest feed proxy.
//!
//! The library models the persistent feed store, the bounded ingestion
//! queue, the metrics counters, and the pure text processing used to
//! compose notifications.  Network transport, durability and the push
//! delivery itself live outside the library and talk to it through
//! plain values.

pub mod common;
pub mod fever;
pub mod pipe;
pub mod push;
pub mod storage;
