//! What the orchestrator works on.
pub mod epic;
pub mod issue;
pub mod retry;
pub mod session;
pub mod state;
pub mod workflow;
