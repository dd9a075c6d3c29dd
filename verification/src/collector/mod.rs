//! Metric naming and the built-in system metrics.
pub mod naming;
pub mod system;
