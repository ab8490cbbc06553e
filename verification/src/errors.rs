//! Failure kinds surfaced by the approval engine.

use vstd::prelude::*;

verus! {

/// Every failure the approval engine can report. All failures are terminal
/// for the call that raised them: either the full transition commits, or
/// nothing does.
#[derive(Clone, Copy, Debug, PartialEq, Eq, Structural)]
pub enum GovError {
    /// The caller could not prove its identity.
    Unauthorized,
    /// The identity is proven but is not in the signer registry.
    NotASigner,
    /// Malformed configuration: thresholds not monotonically non-decreasing,
    /// or the signer list repeats an identity.
    InvalidPolicy,
    /// The action id already maps to a live (non-terminal) action.
    DuplicateProposal,
    /// No action is stored under the given id.
    UnknownAction,
    /// The action has already reached a terminal status.
    AlreadyFinalized,
    /// The signer has already contributed weight to this action.
    DuplicateSignature,
}

} // verus!
