//! Status shared with the HTTP API: counters and their text exposition.
pub mod metrics;
pub mod state;
