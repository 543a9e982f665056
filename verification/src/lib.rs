//! Virtual-branch integration engine.
//!
//! The engine lets a developer keep several independent lines of change in one
//! git working tree.  Applied virtual branches are merged onto an upstream
//! target, the merged state is materialized as an integration commit on a
//! dedicated ref, hidden per-branch refs track each branch's committed and
//! uncommitted state, and a verifier repairs the head when a foreign tool
//! commits directly on the integration ref.

pub mod ids;
pub mod errors;
pub mod ownership;
pub mod branch;
pub mod store;
pub mod messages;
pub mod repo;
pub mod integration;
pub mod controller;
pub mod verify;
pub mod project;
pub mod events;
