//! Decision core of an automated merge-gatekeeper bot.
//!
//! The crate interprets commands embedded in pull-request comments, drives a
//! per-pull-request try-build lifecycle against an injected repository client,
//! and correlates asynchronous CI lifecycle events back to tracked builds.

pub mod client;
pub mod command;
pub mod database;
pub mod event;
pub mod handlers;
pub mod laws;
pub mod registry;
pub mod text;
