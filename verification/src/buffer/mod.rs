//! The write-ahead log: record framing, log index, metadata and compaction.
pub mod compaction;
pub mod meta;
pub mod record;
pub mod wal;
pub mod wal_metrics;
