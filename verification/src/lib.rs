//! Verified core of a liveness-monitoring service.
//!
//! Remote devices periodically send heartbeat signals; the service keeps
//! rolling statistics (longest gap between heartbeats, total beat count,
//! per-device last-seen instants, visit counts) and registers devices under
//! time-ordered, collision-free 64-bit identifiers.
//!
//! This crate holds the parts with real invariants: the identifier
//! generator, the statistics aggregate and its transition logic, token
//! derivation for registered devices, and the small decision rules of the
//! notification path. Durable storage, HTTP transport and notification
//! delivery are external collaborators driven by unverified glue.

pub mod snowflake;
pub mod stats;
pub mod token;
pub mod webhook;
