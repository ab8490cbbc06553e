//! A weighted multi-signature authorization engine.
//!
//! Given a registry of weighted signers and a policy of approval thresholds,
//! the engine decides whether a proposed sensitive action has accumulated
//! enough approval weight to execute, while preventing double-counting of a
//! signer's weight, unauthorized proposers, and stale re-execution.

pub mod action;
pub mod dispute;
pub mod engine;
pub mod errors;
pub mod policy;
pub mod registry;
