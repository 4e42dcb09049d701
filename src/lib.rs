//! A streaming ingestion core for line-oriented JSON access logs: per-line
//! decoding, a stable identity for the whole file, bounded write admission
//! with a drain barrier, idempotent write outcomes and run statistics.
pub mod decoder;
pub mod identity;
pub mod stats;
pub mod admission;
pub mod pipeline;
