//! WASM plugins: manifests, signatures, discovery and the bookkeeping around
//! a plugin run.
pub mod discovery;
pub mod error;
pub mod host;
pub mod installer;
pub mod manifest;
pub mod metrics;
pub mod runtime;
