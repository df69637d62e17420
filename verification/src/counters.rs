//! Queue-depth counters, one per tier.

use crate::priority::Priority;
use vstd::prelude::*;

verus! {

/// Depth of both tiers at one moment: for each tier the number of tasks
/// that were admitted and have not yet reached a terminal outcome. Tasks
/// that are with a worker are still counted.
#[derive(Clone, Copy, Debug, PartialEq, Eq, Structural)]
pub struct QueueCounters {
    pub high: u64,
    pub low: u64,
}

impl QueueCounters {
    /// The counter of one tier.
    pub open spec fn queued(self, priority: Priority) -> nat {
        match priority {
            Priority::High => self.high as nat,
            Priority::Low => self.low as nat,
        }
    }

    /// Counters of a dispatcher that has not admitted anything.
    pub fn new() -> (r: Self)
        ensures
            r.high == 0,
            r.low == 0,
    {
        QueueCounters { high: 0, low: 0 }
    }

    /// Reads the depth of one tier.
    pub fn read_queue_count(&self, priority: Priority) -> (r: u64)
        ensures
            r == self.queued(priority),
    {
        match priority {
            Priority::High => self.high,
            Priority::Low => self.low,
        }
    }

    /// Counts one admitted task of a tier.
    pub fn enqueue(&mut self, priority: Priority)
        requires
            old(self).queued(priority) < u64::MAX,
        ensures
            final(self).queued(priority) == old(self).queued(priority) + 1,
            final(self).queued(priority.other()) == old(self).queued(priority.other()),
    {
        match priority {
            Priority::High => {
                self.high = self.high + 1;
            },
            Priority::Low => {
                self.low = self.low + 1;
            },
        }
    }

    /// Takes `count` resolved tasks of a tier out of the count.
    pub fn release(&mut self, priority: Priority, count: u64)
        requires
            count <= old(self).queued(priority),
        ensures
            final(self).queued(priority) == old(self).queued(priority) - count,
            final(self).queued(priority.other()) == old(self).queued(priority.other()),
    {
        match priority {
            Priority::High => {
                self.high = self.high - count;
            },
            Priority::Low => {
                self.low = self.low - count;
            },
        }
    }
}

} // verus!
