//! Configuration: its parts, its defaults, and how a WORKFLOW file gives it.
pub mod env;
pub mod schema;
pub mod workflow;
