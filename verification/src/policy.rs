//! Approval thresholds and the mapping from action class to threshold.

use vstd::prelude::*;

verus! {

/// The class of a proposed action. The engine governs a single class:
/// a sensitive funds transfer, which is gated by the medium threshold.
#[derive(Clone, Copy, Debug, PartialEq, Eq, Structural)]
pub enum ActionClass {
    SensitiveTransfer,
}

/// The three approval levels. A pure value object: once configured it is
/// only replaced as a whole, never edited in place.
#[derive(Clone, Copy, Debug, PartialEq, Eq, Structural)]
pub struct ThresholdPolicy {
    pub low: u64,
    pub medium: u64,
    pub high: u64,
}

impl ThresholdPolicy {
    /// Thresholds must be monotonically non-decreasing.
    pub open spec fn wf(self) -> bool {
        self.low <= self.medium && self.medium <= self.high
    }

    /// The weight an action of `class` must accumulate to execute.
    pub open spec fn required_weight_spec(self, class: ActionClass) -> u64 {
        match class {
            ActionClass::SensitiveTransfer => self.medium,
        }
    }

    /// Minimum accumulated signer weight required to execute an action
    /// of the given class.
    pub fn required_weight(&self, class: ActionClass) -> (w: u64)
        ensures
            w == self.required_weight_spec(class),
    {
        match class {
            ActionClass::SensitiveTransfer => self.medium,
        }
    }

    /// Decides whether the thresholds are monotonically non-decreasing.
    pub fn is_valid(&self) -> (b: bool)
        ensures
            b == self.wf(),
    {
        self.low <= self.medium && self.medium <= self.high
    }
}

} // verus!
