//! The dispatch engine as a mathematical state machine.
//!
//! A [`DispatcherState`] is what a dispatcher holds at one moment; the
//! functions on it say what each operation of the engine does to that
//! state. The executable dispatcher is specified against them, and the laws
//! of the engine are proved about them.

use crate::context::TaskView;
use crate::priority::Priority;
use crate::retry::{spend, Attempt};
use crate::target_log::{log_event, LogEvent, TargetCounts};
use vstd::prelude::*;

verus! {

/// What a dispatcher holds.
#[verifier::ext_equal]
pub struct DispatcherState {
    /// Most tasks either queue holds at a time.
    pub capacity: nat,
    /// Attempts granted to every task of a new request.
    pub budget: nat,
    /// Tasks waiting in the high-priority queue, oldest first.
    pub high: Seq<TaskView>,
    /// Tasks waiting in the low-priority queue, oldest first.
    pub low: Seq<TaskView>,
    /// Depth counter of the high tier: admitted and not yet resolved.
    pub queued_high: nat,
    /// Depth counter of the low tier.
    pub queued_low: nat,
    /// High-tier tasks handed to a worker and not yet resolved.
    pub in_flight_high: nat,
    /// Low-tier tasks handed to a worker and not yet resolved.
    pub in_flight_low: nat,
    /// Outcome ledger by target.
    pub log: Map<Seq<char>, TargetCounts>,
}

/// What the dispatcher did with a task that came back from a worker.
pub enum Verdict {
    /// Delivered and done.
    Success,
    /// Queued again with this budget.
    Retry(nat),
    /// Given up; recorded as a failure.
    Exhausted,
    /// Its queue had no room for the retry. The refused requeue has cost
    /// one attempt; the task, with the budget that is left, stays with the
    /// worker, which is to offer it again.
    Blocked(TaskView),
}

/// A task with another budget.
pub open spec fn with_remaining(task: TaskView, remaining: nat) -> TaskView {
    TaskView { remaining, ..task }
}

impl DispatcherState {
    /// A dispatcher that has not seen any task.
    pub open spec fn fresh(capacity: nat, budget: nat) -> DispatcherState {
        DispatcherState {
            capacity,
            budget,
            high: Seq::empty(),
            low: Seq::empty(),
            queued_high: 0,
            queued_low: 0,
            in_flight_high: 0,
            in_flight_low: 0,
            log: Map::empty(),
        }
    }

    /// The tasks waiting in one tier.
    pub open spec fn queue(self, priority: Priority) -> Seq<TaskView> {
        match priority {
            Priority::High => self.high,
            Priority::Low => self.low,
        }
    }

    /// The depth counter of one tier.
    pub open spec fn queued(self, priority: Priority) -> nat {
        match priority {
            Priority::High => self.queued_high,
            Priority::Low => self.queued_low,
        }
    }

    /// The number of tasks of one tier that are with a worker.
    pub open spec fn in_flight(self, priority: Priority) -> nat {
        match priority {
            Priority::High => self.in_flight_high,
            Priority::Low => self.in_flight_low,
        }
    }

    pub open spec fn with_queue(self, priority: Priority, queue: Seq<TaskView>) -> DispatcherState {
        match priority {
            Priority::High => DispatcherState { high: queue, ..self },
            Priority::Low => DispatcherState { low: queue, ..self },
        }
    }

    pub open spec fn with_queued(self, priority: Priority, queued: nat) -> DispatcherState {
        match priority {
            Priority::High => DispatcherState { queued_high: queued, ..self },
            Priority::Low => DispatcherState { queued_low: queued, ..self },
        }
    }

    pub open spec fn with_in_flight(self, priority: Priority, in_flight: nat) -> DispatcherState {
        match priority {
            Priority::High => DispatcherState { in_flight_high: in_flight, ..self },
            Priority::Low => DispatcherState { in_flight_low: in_flight, ..self },
        }
    }

    pub open spec fn with_log(self, log: Map<Seq<char>, TargetCounts>) -> DispatcherState {
        DispatcherState { log, ..self }
    }

    /// The accounting that every operation keeps: no queue is over
    /// capacity, every waiting task sits in the queue of its own tier, and
    /// the depth counter of a tier is the number of its tasks that wait plus
    /// the number that are with a worker.
    pub open spec fn wf(self) -> bool {
        &&& self.high.len() <= self.capacity
        &&& self.low.len() <= self.capacity
        &&& self.queued_high == self.high.len() + self.in_flight_high
        &&& self.queued_low == self.low.len() + self.in_flight_low
        &&& forall|i: int| 0 <= i < self.high.len() ==> (#[trigger] self.high[i]).priority == Priority::High
        &&& forall|i: int| 0 <= i < self.low.len() ==> (#[trigger] self.low[i]).priority == Priority::Low
    }

    /// Whether a tier admits one more task: its queue is under capacity and
    /// its depth counter can still count up.
    pub open spec fn has_room(self, priority: Priority) -> bool {
        &&& self.queue(priority).len() < self.capacity
        &&& self.queued(priority) < u64::MAX
    }

    /// How many more tasks a tier admits.
    pub open spec fn room(self, priority: Priority) -> nat {
        let slots = self.capacity - self.queue(priority).len();
        let counts = u64::MAX - self.queued(priority);
        if slots <= 0 || counts <= 0 {
            0
        } else if slots <= counts {
            slots as nat
        } else {
            counts as nat
        }
    }

    /// Admission of a task: it goes to the back of the queue of its tier
    /// and is counted.
    pub open spec fn enqueue(self, task: TaskView) -> DispatcherState {
        self.with_queue(task.priority, self.queue(task.priority).push(task)).with_queued(
            task.priority,
            self.queued(task.priority) + 1,
        )
    }

    /// Admission of several tasks, one after the other.
    pub open spec fn enqueue_all(self, tasks: Seq<TaskView>) -> DispatcherState
        decreases tasks.len(),
    {
        if tasks.len() == 0 {
            self
        } else {
            self.enqueue_all(tasks.drop_last()).enqueue(tasks.last())
        }
    }

    /// The task a worker is handed next: the oldest of the high tier, and
    /// only when that tier is empty the oldest of the low tier.
    pub open spec fn front(self) -> Option<TaskView> {
        if self.high.len() > 0 {
            Some(self.high[0])
        } else if self.low.len() > 0 {
            Some(self.low[0])
        } else {
            None
        }
    }

    /// The state once the next task has been handed to a worker. The task
    /// leaves its queue and is in flight; it remains counted.
    pub open spec fn take_front(self) -> DispatcherState {
        if self.high.len() > 0 {
            DispatcherState {
                high: self.high.skip(1),
                in_flight_high: self.in_flight_high + 1,
                ..self
            }
        } else if self.low.len() > 0 {
            DispatcherState { low: self.low.skip(1), in_flight_low: self.in_flight_low + 1, ..self }
        } else {
            self
        }
    }

    /// One in-flight task of a tier reaches a terminal outcome.
    pub open spec fn finish(self, priority: Priority) -> DispatcherState {
        self.with_queued(priority, (self.queued(priority) - 1) as nat).with_in_flight(
            priority,
            (self.in_flight(priority) - 1) as nat,
        )
    }

    /// An in-flight task is given up and recorded as a failure.
    pub open spec fn give_up(self, task: TaskView) -> DispatcherState {
        self.with_log(log_event(self.log, task.target, LogEvent::Dropped)).finish(task.priority)
    }

    /// An in-flight task goes back to the end of its queue.
    pub open spec fn put_back(self, task: TaskView) -> DispatcherState {
        self.with_queue(task.priority, self.queue(task.priority).push(task)).with_in_flight(
            task.priority,
            (self.in_flight(task.priority) - 1) as nat,
        )
    }

    /// A failed in-flight task, whose budget already shows the failure, is
    /// offered to its queue again.
    ///
    /// Without budget it is given up. With budget it is queued when the
    /// queue has room. When it has none, the refused requeue counts as one
    /// more failure: it consumes an attempt, and the task is given up if
    /// that was the last one and otherwise stays with the worker.
    pub open spec fn requeue(self, task: TaskView) -> (DispatcherState, Verdict) {
        if task.remaining == 0 {
            (self.give_up(task), Verdict::Exhausted)
        } else if self.queue(task.priority).len() < self.capacity {
            (self.put_back(task), Verdict::Retry(task.remaining))
        } else if spend(task.remaining) == 0 {
            (self.give_up(task), Verdict::Exhausted)
        } else {
            (self, Verdict::Blocked(with_remaining(task, spend(task.remaining))))
        }
    }

    /// The result of a delivery attempt arrives for an in-flight task.
    ///
    /// A delivery is logged and ends the task. A failure is logged as an
    /// attempt, consumes one attempt of the budget, and the task is offered
    /// to its queue again.
    pub open spec fn resolve(self, task: TaskView, attempt: Attempt) -> (DispatcherState, Verdict) {
        match attempt {
            Attempt::Delivered => (
                self.with_log(log_event(self.log, task.target, LogEvent::Delivered)).finish(
                    task.priority,
                ),
                Verdict::Success,
            ),
            Attempt::Failed => self.with_log(
                log_event(self.log, task.target, LogEvent::FailedAttempt),
            ).requeue(with_remaining(task, spend(task.remaining))),
        }
    }

    /// Load shedding: every task that waits in the low tier is discarded
    /// and no longer counted. Nothing is logged, and tasks in flight are
    /// not touched.
    pub open spec fn flush_low(self) -> DispatcherState {
        DispatcherState {
            low: Seq::empty(),
            queued_low: (self.queued_low - self.low.len()) as nat,
            ..self
        }
    }
}

/// One operation on a dispatcher, as any of its users may perform it.
pub enum Operation {
    /// A producer offers a task.
    Enqueue(TaskView),
    /// A worker asks for the next task.
    Dequeue,
    /// A worker hands a task back with the result of an attempt.
    Resolve(TaskView, Attempt),
    /// A worker offers a held-back task again.
    Requeue(TaskView),
    /// The flush control sheds the low tier.
    FlushLow,
}

/// The state after one operation. An operation that the dispatcher
/// refuses leaves the state as it is.
pub open spec fn apply(state: DispatcherState, operation: Operation) -> DispatcherState {
    match operation {
        Operation::Enqueue(task) => if state.has_room(task.priority) {
            state.enqueue(task)
        } else {
            state
        },
        Operation::Dequeue => state.take_front(),
        Operation::Resolve(task, attempt) => if state.in_flight(task.priority) > 0 {
            state.resolve(task, attempt).0
        } else {
            state
        },
        Operation::Requeue(task) => if state.in_flight(task.priority) > 0 {
            state.requeue(task).0
        } else {
            state
        },
        Operation::FlushLow => state.flush_low(),
    }
}

/// The state after a sequence of operations.
pub open spec fn run(state: DispatcherState, operations: Seq<Operation>) -> DispatcherState
    decreases operations.len(),
{
    if operations.len() == 0 {
        state
    } else {
        apply(run(state, operations.drop_last()), operations.last())
    }
}

} // verus!
