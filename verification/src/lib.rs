//! Verified core of the SentinelRS edge agent: the write-ahead log's record
//! format and bookkeeping, batching, retry and send decisions, configuration
//! rules, persisted state, plugin bookkeeping and the signing and sealing of
//! secrets.
pub mod api;
pub mod assoc;
pub mod batch;
pub mod bootstrap;
pub mod buffer;
pub mod cli;
pub mod collector;
pub mod config;
pub mod exporter;
pub mod order;
pub mod persistence;
pub mod platform;
pub mod plugin;
pub mod security;
pub mod text;
