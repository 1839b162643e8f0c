//! The logic of an orchestrator for coding agents.
//!
//! Trackers are polled for issues ([`tracker`]); eligible ones are dispatched
//! within limits ([`orchestrator`]); each gets a workspace ([`workspace`]) and a
//! prompt ([`prompt`]), and an agent works on it ([`agent`]) until there is a
//! pull request, whose feedback is worked on in turn. What runs, waits and is
//! done is kept in [`domain::state`] and shown by [`server`]. Settings come from
//! workflow files ([`config`]).
//!
//! Nothing here touches files, processes, the network or the clock: what they
//! have to say comes in as arguments, and what is to be done to them is
//! returned.
pub mod agent;
pub mod collections;
pub mod config;
pub mod domain;
pub mod error;
pub mod json;
pub mod orchestrator;
pub mod paths;
pub mod pattern;
pub mod prompt;
pub mod server;
pub mod startup;
pub mod steady;
pub mod template;
pub mod text;
pub mod time;
pub mod tracker;
pub mod workspace;
