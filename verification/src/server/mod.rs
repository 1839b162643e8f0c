//! What the HTTP server shows.
pub mod dashboard;
