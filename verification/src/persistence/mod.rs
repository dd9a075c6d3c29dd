//! What the agent keeps across restarts: its persisted state, the layout of
//! its volume, and the decisions taken when it starts again.
pub mod recovery;
pub mod state;
pub mod volume;
