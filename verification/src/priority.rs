//! The two service tiers of the duplicator.

use vstd::prelude::*;

verus! {

/// Tier a delivery task is queued under. `High` is always served before
/// `Low`; there is no aging, so sustained `High` traffic can starve `Low`.
#[derive(Clone, Copy, Debug, PartialEq, Eq, Structural)]
pub enum Priority {
    High,
    Low,
}

impl Priority {
    /// The other tier.
    pub open spec fn other(self) -> Priority {
        match self {
            Priority::High => Priority::Low,
            Priority::Low => Priority::High,
        }
    }

    /// Whether this is the preferred tier.
    pub fn is_high(self) -> (r: bool)
        ensures
            r == (self == Priority::High),
    {
        match self {
            Priority::High => true,
            Priority::Low => false,
        }
    }
}

} // verus!
