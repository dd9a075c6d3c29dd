//! The agent's configuration: its shape, defaults and validity rules, and
//! the encrypted store for secrets next to it.
pub mod key_store;
pub mod loader;
pub mod schema;
