//! Trackers: what they are asked, and what their answers say.
pub mod mcp;
pub mod mcp_http;
pub mod notion;
pub mod oauth;
pub mod sentry;
