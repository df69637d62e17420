//! The dispatcher: two bounded queues, their counters and the target
//! ledger, with the operations that producers, workers and the flush
//! control perform on them.
//!
//! A dispatcher is sequential. A host that serves producers and workers
//! concurrently keeps it behind one lock and holds that lock for the length
//! of one operation only, never across a delivery.

use crate::context::{lemma_task_views_push, lemma_task_views_skip, task_views, DeliveryTask};
use crate::counters::QueueCounters;
use crate::model::{apply, DispatcherState, Operation, Verdict};
use crate::priority::Priority;
use crate::retry::{decide, spend_one, Attempt, AttemptOutcome};
use crate::target_log::{LogEvent, TargetLog};
use std::collections::VecDeque;
use vstd::prelude::*;

verus! {

/// The dispatch engine of one process.
#[derive(Debug)]
pub struct Dispatcher {
    capacity: usize,
    budget: u32,
    high: VecDeque<DeliveryTask>,
    low: VecDeque<DeliveryTask>,
    counters: QueueCounters,
    in_flight_high: u64,
    in_flight_low: u64,
    log: TargetLog,
}

/// A task that was refused because its tier has no room. The task is
/// handed back unchanged.
#[derive(Debug)]
pub struct AdmissionError {
    pub task: DeliveryTask,
}

/// What the dispatcher did with a task that came back from a worker.
#[derive(Debug)]
pub enum Resolution {
    /// Delivered and done.
    Success,
    /// Queued again with this budget.
    Retry(u32),
    /// Given up; recorded as a failure.
    Exhausted,
    /// The queue had no room for the retry, which has cost one attempt.
    /// The task is handed back with the budget that is left and is still in
    /// flight; the worker offers it again with [`Dispatcher::requeue`].
    Blocked(DeliveryTask),
}

impl View for Resolution {
    type V = Verdict;

    open spec fn view(&self) -> Verdict {
        match *self {
            Resolution::Success => Verdict::Success,
            Resolution::Retry(left) => Verdict::Retry(left as nat),
            Resolution::Exhausted => Verdict::Exhausted,
            Resolution::Blocked(task) => Verdict::Blocked(task@),
        }
    }
}

/// A task was handed in for a tier that has no task in flight. The task
/// is handed back unchanged.
#[derive(Debug)]
pub struct NotInFlight {
    pub task: DeliveryTask,
}

impl View for Dispatcher {
    type V = DispatcherState;

    closed spec fn view(&self) -> DispatcherState {
        DispatcherState {
            capacity: self.capacity as nat,
            budget: self.budget as nat,
            high: task_views(self.high@),
            low: task_views(self.low@),
            queued_high: self.counters.high as nat,
            queued_low: self.counters.low as nat,
            in_flight_high: self.in_flight_high as nat,
            in_flight_low: self.in_flight_low as nat,
            log: self.log@,
        }
    }
}

impl Dispatcher {
    /// Soundness of the representation behind the view.
    pub closed spec fn repr_ok(&self) -> bool {
        self.log.wf()
    }

    /// Well-formedness: the accounting of the state holds.
    pub open spec fn wf(&self) -> bool {
        self@.wf() && self.repr_ok()
    }

    /// A dispatcher whose queues hold at most `capacity` tasks each and
    /// that grants `budget` attempts to every task of a new request.
    pub fn new(capacity: usize, budget: u32) -> (r: Self)
        ensures
            r.wf(),
            r@ == DispatcherState::fresh(capacity as nat, budget as nat),
    {
        let r = Dispatcher {
            capacity,
            budget,
            high: VecDeque::new(),
            low: VecDeque::new(),
            counters: QueueCounters::new(),
            in_flight_high: 0,
            in_flight_low: 0,
            log: TargetLog::new(),
        };
        assert(r@ =~= DispatcherState::fresh(capacity as nat, budget as nat));
        r
    }

    /// The attempts granted to every task of a new request.
    pub fn budget(&self) -> (r: u32)
        ensures
            r == self@.budget,
    {
        self.budget
    }

    /// The most tasks either queue holds.
    pub fn capacity(&self) -> (r: usize)
        ensures
            r == self@.capacity,
    {
        self.capacity
    }

    /// The number of tasks that wait in one tier.
    pub fn waiting(&self, priority: Priority) -> (r: usize)
        ensures
            r == self@.queue(priority).len(),
    {
        match priority {
            Priority::High => self.high.len(),
            Priority::Low => self.low.len(),
        }
    }

    /// The number of tasks of one tier that are with a worker.
    pub fn in_flight(&self, priority: Priority) -> (r: u64)
        ensures
            r == self@.in_flight(priority),
    {
        match priority {
            Priority::High => self.in_flight_high,
            Priority::Low => self.in_flight_low,
        }
    }

    /// A snapshot of the depth counters.
    pub fn metrics(&self) -> (r: QueueCounters)
        ensures
            r.high == self@.queued_high,
            r.low == self@.queued_low,
    {
        self.counters
    }

    /// The target ledger, for observation.
    pub fn target_log(&self) -> (r: &TargetLog)
        requires
            self.wf(),
        ensures
            r.wf(),
            r@ == self@.log,
    {
        &self.log
    }

    /// Whether a tier admits one more task.
    pub fn has_room(&self, priority: Priority) -> (r: bool)
        ensures
            r == self@.has_room(priority),
    {
        self.waiting(priority) < self.capacity && self.counters.read_queue_count(priority)
            < u64::MAX
    }

    fn push_back(&mut self, task: DeliveryTask)
        ensures
            final(self)@ == old(self)@.with_queue(
                task.priority,
                old(self)@.queue(task.priority).push(task@),
            ),
            final(self).repr_ok() == old(self).repr_ok(),
    {
        proof {
            lemma_task_views_push(self.high@, task);
            lemma_task_views_push(self.low@, task);
        }
        match task.priority {
            Priority::High => {
                self.high.push_back(task);
            },
            Priority::Low => {
                self.low.push_back(task);
            },
        }
    }

    /// Admits a task to the back of the queue of its tier.
    ///
    /// The task is admitted exactly when its tier has room; it is then
    /// counted in the tier's depth. Otherwise nothing changes and the task
    /// comes back in the error: a full queue refuses at once and never makes
    /// the producer wait, so memory stays bounded under overload.
    pub fn enqueue(&mut self, task: DeliveryTask) -> (r: Result<(), AdmissionError>)
        requires
            old(self).wf(),
        ensures
            final(self).wf(),
            final(self)@ == apply(old(self)@, Operation::Enqueue(task@)),
            match r {
                Ok(()) => {
                    &&& old(self)@.has_room(task.priority)
                    &&& final(self)@ == old(self)@.enqueue(task@)
                },
                Err(refused) => {
                    &&& !old(self)@.has_room(task.priority)
                    &&& final(self)@ == old(self)@
                    &&& refused.task == task
                },
            },
    {
        if !self.has_room(task.priority) {
            return Err(AdmissionError { task });
        }
        let priority = task.priority;
        let ghost view = task@;
        self.counters.enqueue(priority);
        self.push_back(task);
        assert(self@ =~= old(self)@.enqueue(view));
        Ok(())
    }

    /// Hands the next task to a worker: the oldest task of the high tier,
    /// or, only when the high tier is empty, the oldest of the low tier.
    /// Returns `None` when nothing waits. A task handed out is in flight
    /// and stays counted until it is resolved.
    pub fn dequeue(&mut self) -> (r: Option<DeliveryTask>)
        requires
            old(self).wf(),
        ensures
            final(self).wf(),
            final(self)@ == apply(old(self)@, Operation::Dequeue),
            match r {
                Some(task) => {
                    &&& old(self)@.front() == Some(task@)
                    &&& final(self)@ == old(self)@.take_front()
                },
                None => {
                    &&& old(self)@.front() is None
                    &&& final(self)@ == old(self)@
                },
            },
    {
        proof {
            if self.high@.len() > 0 {
                lemma_task_views_skip(self.high@);
            }
            if self.low@.len() > 0 {
                lemma_task_views_skip(self.low@);
            }
        }
        match self.high.pop_front() {
            Some(task) => {
                self.in_flight_high = self.in_flight_high + 1;
                assert(self@ =~= old(self)@.take_front());
                Some(task)
            },
            None => match self.low.pop_front() {
                Some(task) => {
                    self.in_flight_low = self.in_flight_low + 1;
                    assert(self@ =~= old(self)@.take_front());
                    Some(task)
                },
                None => {
                    assert(self@ =~= old(self)@);
                    None
                },
            },
        }
    }

    fn finish(&mut self, priority: Priority)
        requires
            old(self)@.wf(),
            old(self)@.in_flight(priority) > 0,
        ensures
            final(self)@ == old(self)@.finish(priority),
            final(self)@.wf(),
            final(self).repr_ok() == old(self).repr_ok(),
    {
        self.counters.release(priority, 1);
        match priority {
            Priority::High => {
                self.in_flight_high = self.in_flight_high - 1;
            },
            Priority::Low => {
                self.in_flight_low = self.in_flight_low - 1;
            },
        }
        assert(self@ =~= old(self)@.finish(priority));
    }

    fn give_up(&mut self, task: DeliveryTask)
        requires
            old(self).wf(),
            old(self)@.in_flight(task.priority) > 0,
        ensures
            final(self).wf(),
            final(self)@ == old(self)@.give_up(task@),
    {
        self.log.record(&task.target, LogEvent::Dropped);
        assert(self@ =~= old(self)@.with_log(self@.log));
        self.finish(task.priority);
    }

    fn settle(&mut self, task: DeliveryTask) -> (r: Resolution)
        requires
            old(self).wf(),
            old(self)@.in_flight(task.priority) > 0,
        ensures
            final(self).wf(),
            (final(self)@, r@) == old(self)@.requeue(task@),
    {
        if task.remaining_attempts == 0 {
            self.give_up(task);
            Resolution::Exhausted
        } else if self.waiting(task.priority) < self.capacity {
            let left = task.remaining_attempts;
            let priority = task.priority;
            let ghost view = task@;
            self.push_back(task);
            match priority {
                Priority::High => {
                    self.in_flight_high = self.in_flight_high - 1;
                },
                Priority::Low => {
                    self.in_flight_low = self.in_flight_low - 1;
                },
            }
            assert(self@ =~= old(self)@.put_back(view));
            Resolution::Retry(left)
        } else {
            let left = spend_one(task.remaining_attempts);
            if left == 0 {
                self.give_up(task);
                Resolution::Exhausted
            } else {
                Resolution::Blocked(
                    DeliveryTask {
                        target: task.target,
                        context: task.context,
                        remaining_attempts: left,
                        priority: task.priority,
                    },
                )
            }
        }
    }

    /// Takes back an in-flight task after a delivery attempt.
    ///
    /// A delivered task is logged as a success and leaves the count of its
    /// tier. A failed one is logged as an attempt and loses one attempt of
    /// its budget; with budget left it returns to the back of the queue it
    /// came from and stays counted, without budget it is logged as a failure
    /// and leaves the count. Where the queue has no room for the retry, see
    /// [`Resolution::Blocked`].
    ///
    /// When the tier of the task has nothing in flight the task cannot be
    /// one that this dispatcher handed out: nothing changes and the task
    /// comes back in the error.
    pub fn resolve(&mut self, task: DeliveryTask, attempt: Attempt) -> (r: Result<
        Resolution,
        NotInFlight,
    >)
        requires
            old(self).wf(),
        ensures
            final(self).wf(),
            final(self)@ == apply(old(self)@, Operation::Resolve(task@, attempt)),
            match r {
                Ok(resolution) => {
                    &&& old(self)@.in_flight(task.priority) > 0
                    &&& (final(self)@, resolution@) == old(self)@.resolve(task@, attempt)
                },
                Err(refused) => {
                    &&& old(self)@.in_flight(task.priority) == 0
                    &&& final(self)@ == old(self)@
                    &&& refused.task == task
                },
            },
    {
        if self.in_flight(task.priority) == 0 {
            return Err(NotInFlight { task });
        }
        match decide(task.remaining_attempts, attempt) {
            AttemptOutcome::Success => {
                self.log.record(&task.target, LogEvent::Delivered);
                assert(self@ =~= old(self)@.with_log(self@.log));
                self.finish(task.priority);
                Ok(Resolution::Success)
            },
            AttemptOutcome::Retry(left) => {
                self.log.record(&task.target, LogEvent::FailedAttempt);
                assert(self@ =~= old(self)@.with_log(self@.log));
                let retry = DeliveryTask {
                    target: task.target,
                    context: task.context,
                    remaining_attempts: left,
                    priority: task.priority,
                };
                Ok(self.settle(retry))
            },
            AttemptOutcome::Exhausted => {
                self.log.record(&task.target, LogEvent::FailedAttempt);
                assert(self@ =~= old(self)@.with_log(self@.log));
                self.give_up(task);
                Ok(Resolution::Exhausted)
            },
        }
    }

    /// Offers a task again that [`Dispatcher::resolve`] or an earlier call
    /// of this function handed back as [`Resolution::Blocked`].
    ///
    /// The task is queued when its queue has room by now. When it has
    /// none, the refusal costs another attempt: the task is logged as a
    /// failure and leaves the count if that was its last, and is handed back
    /// again otherwise.
    pub fn requeue(&mut self, task: DeliveryTask) -> (r: Result<Resolution, NotInFlight>)
        requires
            old(self).wf(),
        ensures
            final(self).wf(),
            final(self)@ == apply(old(self)@, Operation::Requeue(task@)),
            match r {
                Ok(resolution) => {
                    &&& old(self)@.in_flight(task.priority) > 0
                    &&& (final(self)@, resolution@) == old(self)@.requeue(task@)
                },
                Err(refused) => {
                    &&& old(self)@.in_flight(task.priority) == 0
                    &&& final(self)@ == old(self)@
                    &&& refused.task == task
                },
            },
    {
        if self.in_flight(task.priority) == 0 {
            return Err(NotInFlight { task });
        }
        Ok(self.settle(task))
    }

    /// Discards every task that waits in the low tier, without attempting
    /// delivery, and returns how many there were.
    ///
    /// Each discarded task leaves the count of the low tier. The ledger,
    /// the high tier and the tasks in flight are not touched; a low-tier
    /// task that is with a worker is resolved as usual later on.
    pub fn flush_low_priority(&mut self) -> (dropped: usize)
        requires
            old(self).wf(),
        ensures
            final(self).wf(),
            final(self)@ == old(self)@.flush_low(),
            final(self)@ == apply(old(self)@, Operation::FlushLow),
            dropped == old(self)@.low.len(),
    {
        let ghost before = self@;
        let mut dropped: usize = 0;
        while self.low.len() > 0
            invariant
                before.wf(),
                self.repr_ok(),
                dropped <= before.low.len(),
                self@ == (DispatcherState {
                    low: before.low.skip(dropped as int),
                    queued_low: (before.queued_low - dropped) as nat,
                    ..before
                }),
            decreases self.low@.len(),
        {
            let ghost waiting = self.low@;
            proof {
                lemma_task_views_skip(waiting);
            }
            let _ = self.low.pop_front();
            self.counters.release(Priority::Low, 1);
            dropped = dropped + 1;
            assert(self@ =~= (DispatcherState {
                low: before.low.skip(dropped as int),
                queued_low: (before.queued_low - dropped) as nat,
                ..before
            }));
        }
        proof {
            assert(self@.low.len() == self.low@.len());
            assert(before.low.skip(dropped as int).len() == before.low.len() - dropped);
            assert(self@ =~= before.flush_low());
        }
        dropped
    }
}

} // verus!
