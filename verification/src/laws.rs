//! Laws of the dispatch engine, proved of its state machine.

use crate::context::TaskView;
use crate::model::{apply, run, with_remaining, DispatcherState, Operation, Verdict};
use crate::priority::Priority;
use crate::retry::{spend, Attempt};
use crate::target_log::{counts_of, log_event, LogEvent, TargetCounts};
use vstd::prelude::*;

verus! {

/// Whether every task of a sequence belongs to one tier.
pub open spec fn all_of_tier(tasks: Seq<TaskView>, priority: Priority) -> bool {
    forall|i: int| 0 <= i < tasks.len() ==> (#[trigger] tasks[i]).priority == priority
}

/// Admitting tasks of one tier one after the other appends exactly these
/// tasks, in their order, to the queue of that tier and counts each of them
/// once. No task is lost, none appears twice, and nothing else changes.
pub proof fn law_enqueues_append_and_count(
    state: DispatcherState,
    tasks: Seq<TaskView>,
    priority: Priority,
)
    requires
        all_of_tier(tasks, priority),
    ensures
        state.enqueue_all(tasks) == state.with_queue(
            priority,
            state.queue(priority) + tasks,
        ).with_queued(priority, state.queued(priority) + tasks.len()),
        state.enqueue_all(tasks).queued(priority) == state.queued(priority) + tasks.len(),
        state.enqueue_all(tasks).queue(priority) == state.queue(priority) + tasks,
    decreases tasks.len(),
{
    let closed_form = state.with_queue(priority, state.queue(priority) + tasks).with_queued(
        priority,
        state.queued(priority) + tasks.len(),
    );
    if tasks.len() == 0 {
        assert(state.queue(priority) + tasks =~= state.queue(priority));
        assert(closed_form =~= state);
    } else {
        let earlier = tasks.drop_last();
        law_enqueues_append_and_count(state, earlier, priority);
        assert(tasks.last().priority == priority);
        assert((state.queue(priority) + earlier).push(tasks.last()) =~= state.queue(priority)
            + tasks);
        assert(state.enqueue_all(earlier).enqueue(tasks.last()) =~= closed_form);
    }
}

/// While a tier has room for all of them, admitting tasks of that tier
/// keeps the accounting of the state intact.
pub proof fn law_enqueues_preserve_wf(
    state: DispatcherState,
    tasks: Seq<TaskView>,
    priority: Priority,
)
    requires
        state.wf(),
        all_of_tier(tasks, priority),
        tasks.len() <= state.room(priority),
    ensures
        state.enqueue_all(tasks).wf(),
{
    law_enqueues_append_and_count(state, tasks, priority);
}

/// After `K` admissions into a tier of a dispatcher that has seen nothing
/// before, the depth counter of that tier reads `K` and its queue holds the
/// `K` tasks in the order of their admission.
pub proof fn law_depth_counts_admissions(
    capacity: nat,
    budget: nat,
    tasks: Seq<TaskView>,
    priority: Priority,
)
    requires
        all_of_tier(tasks, priority),
    ensures
        DispatcherState::fresh(capacity, budget).enqueue_all(tasks).queued(priority)
            == tasks.len(),
        DispatcherState::fresh(capacity, budget).enqueue_all(tasks).queue(priority) == tasks,
        DispatcherState::fresh(capacity, budget).enqueue_all(tasks).queued(priority.other()) == 0,
{
    let fresh = DispatcherState::fresh(capacity, budget);
    law_enqueues_append_and_count(fresh, tasks, priority);
    assert(fresh.queue(priority) + tasks =~= tasks);
}

/// Whether a verdict ends the life of a task.
pub open spec fn is_terminal(verdict: Verdict) -> bool {
    verdict is Success || verdict is Exhausted
}

/// Every terminal outcome takes exactly one task out of the depth of its
/// tier, whatever its kind, and leaves the other tier alone; a task that is
/// retried or held back stays counted.
pub proof fn law_terminal_outcome_releases_one(
    state: DispatcherState,
    task: TaskView,
    attempt: Attempt,
)
    requires
        state.wf(),
        state.in_flight(task.priority) > 0,
    ensures
        ({
            let (next, verdict) = state.resolve(task, attempt);
            &&& is_terminal(verdict) ==> next.queued(task.priority) == state.queued(task.priority)
                - 1
            &&& !is_terminal(verdict) ==> next.queued(task.priority) == state.queued(
                task.priority,
            )
            &&& next.queued(task.priority.other()) == state.queued(task.priority.other())
        }),
        ({
            let (next, verdict) = state.requeue(task);
            &&& is_terminal(verdict) ==> next.queued(task.priority) == state.queued(task.priority)
                - 1
            &&& !is_terminal(verdict) ==> next.queued(task.priority) == state.queued(
                task.priority,
            )
            &&& next.queued(task.priority.other()) == state.queued(task.priority.other())
        }),
{
}

/// Every operation keeps the accounting of the state: the depth of a tier
/// is always the number of its tasks that wait plus the number that are with
/// a worker. A task that was admitted is therefore counted until exactly one
/// terminal outcome takes it out, and never after.
pub proof fn law_operations_preserve_wf(state: DispatcherState, task: TaskView, attempt: Attempt)
    requires
        state.wf(),
    ensures
        state.has_room(task.priority) ==> state.enqueue(task).wf(),
        state.take_front().wf(),
        state.in_flight(task.priority) > 0 ==> state.resolve(task, attempt).0.wf(),
        state.in_flight(task.priority) > 0 ==> state.requeue(task).0.wf(),
        state.flush_low().wf(),
{
    if state.in_flight(task.priority) > 0 {
        lemma_requeue_preserves_wf(state, task);
        let logged = state.with_log(log_event(state.log, task.target, LogEvent::FailedAttempt));
        lemma_requeue_preserves_wf(logged, with_remaining(task, spend(task.remaining)));
    }
}

proof fn lemma_requeue_preserves_wf(state: DispatcherState, task: TaskView)
    requires
        state.wf(),
        state.in_flight(task.priority) > 0,
    ensures
        state.requeue(task).0.wf(),
{
}

/// A worker is always handed the oldest task of the high tier while that
/// tier holds one, whatever waits in the low tier; the low tier is served
/// only when the high tier is empty, oldest task first.
pub proof fn law_high_tier_is_served_first(state: DispatcherState)
    ensures
        state.high.len() > 0 ==> state.front() == Some(state.high[0]) && state.take_front().low
            == state.low && state.take_front().high == state.high.skip(1),
        state.high.len() == 0 && state.low.len() > 0 ==> state.front() == Some(state.low[0])
            && state.take_front().low == state.low.skip(1),
        state.high.len() == 0 && state.low.len() == 0 ==> state.front() is None,
{
}

/// A low-tier task admitted before a high-tier task is still served after
/// it.
pub proof fn law_later_high_task_overtakes(state: DispatcherState, low: TaskView, high: TaskView)
    requires
        state.high.len() == 0,
        low.priority == Priority::Low,
        high.priority == Priority::High,
    ensures
        state.enqueue(low).enqueue(high).front() == Some(high),
{
}

/// A flush of the low tier that finds `M` tasks waiting there leaves that
/// queue empty and takes `M` out of the tier's depth. The ledger, the high
/// tier and the tasks in flight are as before; with nothing in flight the
/// depth of the low tier is zero afterwards.
pub proof fn law_flush_sheds_waiting_low_tasks(state: DispatcherState)
    requires
        state.wf(),
    ensures
        state.flush_low().low.len() == 0,
        state.flush_low().queued_low == state.queued_low - state.low.len(),
        state.flush_low().log == state.log,
        state.flush_low().high == state.high,
        state.flush_low().queued_high == state.queued_high,
        state.flush_low().in_flight_low == state.in_flight_low,
        state.flush_low().in_flight_high == state.in_flight_high,
        state.in_flight_low == 0 ==> state.flush_low().queued_low == 0,
{
}

/// Admission, hand-out and flush never write to the ledger; an outcome
/// writes only to the line of the task's own target.
pub proof fn law_ledger_changes_only_by_outcomes(
    state: DispatcherState,
    task: TaskView,
    attempt: Attempt,
    other: Seq<char>,
)
    requires
        other != task.target,
    ensures
        state.enqueue(task).log == state.log,
        state.take_front().log == state.log,
        state.flush_low().log == state.log,
        counts_of(state.resolve(task, attempt).0.log, other) == counts_of(state.log, other),
        counts_of(state.requeue(task).0.log, other) == counts_of(state.log, other),
{
}

/// The state after an in-flight task has failed attempt after attempt,
/// being handed out again after every retry, until it is given up.
pub open spec fn fail_until_dropped(state: DispatcherState, task: TaskView) -> DispatcherState
    decreases task.remaining,
{
    let (next, verdict) = state.resolve(task, Attempt::Failed);
    match verdict {
        Verdict::Retry(left) => if left < task.remaining {
            fail_until_dropped(next.take_front(), with_remaining(task, left))
        } else {
            next
        },
        _ => next,
    }
}

/// The number of attempts a budget pays for: the budget itself, and one
/// for a task that was created without any.
pub open spec fn attempts_granted(budget: nat) -> nat {
    if budget == 0 {
        1
    } else {
        budget
    }
}

/// A task that fails every attempt is attempted exactly as often as its
/// budget grants and then given up: with nothing else waiting, its target's
/// line gains that many attempts, one failure and no success, the task is
/// gone from queue and depth, and no other line of the ledger changes.
pub proof fn law_failing_task_exhausts_budget(state: DispatcherState, task: TaskView)
    requires
        state.wf(),
        state.capacity >= 1,
        state.high.len() == 0,
        state.low.len() == 0,
        state.in_flight(task.priority) > 0,
        counts_of(state.log, task.target).attempts + attempts_granted(task.remaining) <= u64::MAX,
        counts_of(state.log, task.target).failures < u64::MAX,
    ensures
        fail_until_dropped(state, task) == state.with_log(
            state.log.insert(
                task.target,
                TargetCounts {
                    attempts: counts_of(state.log, task.target).attempts + attempts_granted(
                        task.remaining,
                    ),
                    successes: counts_of(state.log, task.target).successes,
                    failures: counts_of(state.log, task.target).failures + 1,
                },
            ),
        ).finish(task.priority),
    decreases task.remaining,
{
    let before = counts_of(state.log, task.target);
    let expected = state.with_log(
        state.log.insert(
            task.target,
            TargetCounts {
                attempts: before.attempts + attempts_granted(task.remaining),
                successes: before.successes,
                failures: before.failures + 1,
            },
        ),
    ).finish(task.priority);
    let logged = log_event(state.log, task.target, LogEvent::FailedAttempt);
    assert(counts_of(logged, task.target).attempts == before.attempts + 1);
    let (next, verdict) = state.resolve(task, Attempt::Failed);
    if spend(task.remaining) == 0 {
        assert(verdict is Exhausted);
        assert(next.log =~= expected.log);
        assert(next =~= expected);
    } else {
        let left = spend(task.remaining);
        let retry = with_remaining(task, left);
        assert(verdict == Verdict::Retry(left));
        let handed = next.take_front();
        assert(next.queue(task.priority) =~= seq![retry]);
        assert(handed.high =~= Seq::<TaskView>::empty());
        assert(handed.low =~= Seq::<TaskView>::empty());
        assert(handed =~= state.with_log(logged));
        law_failing_task_exhausts_budget(handed, retry);
        let after = fail_until_dropped(handed, retry);
        assert(after.log =~= expected.log);
        assert(after =~= expected);
    }
}

/// The state after an in-flight task has failed `failures` attempts, being
/// handed out again after every retry, and has then been delivered.
pub open spec fn fail_then_deliver(
    state: DispatcherState,
    task: TaskView,
    failures: nat,
) -> DispatcherState
    decreases failures,
{
    if failures == 0 {
        state.resolve(task, Attempt::Delivered).0
    } else {
        let (next, verdict) = state.resolve(task, Attempt::Failed);
        match verdict {
            Verdict::Retry(left) => fail_then_deliver(
                next.take_front(),
                with_remaining(task, left),
                (failures - 1) as nat,
            ),
            _ => next,
        }
    }
}

/// A task that is delivered after some failed attempts, fewer than its
/// budget grants, is logged with one attempt per failure and one for the
/// delivery, one success and no failure: with nothing else waiting, its
/// target's line gains exactly that, the task is gone from queue and depth,
/// and no other line of the ledger changes.
pub proof fn law_delivery_after_failures(state: DispatcherState, task: TaskView, failures: nat)
    requires
        state.wf(),
        state.capacity >= 1,
        state.high.len() == 0,
        state.low.len() == 0,
        state.in_flight(task.priority) > 0,
        failures < attempts_granted(task.remaining),
        counts_of(state.log, task.target).attempts + failures + 1 <= u64::MAX,
        counts_of(state.log, task.target).successes < u64::MAX,
    ensures
        fail_then_deliver(state, task, failures) == state.with_log(
            state.log.insert(
                task.target,
                TargetCounts {
                    attempts: counts_of(state.log, task.target).attempts + failures + 1,
                    successes: counts_of(state.log, task.target).successes + 1,
                    failures: counts_of(state.log, task.target).failures,
                },
            ),
        ).finish(task.priority),
    decreases failures,
{
    let before = counts_of(state.log, task.target);
    let expected = state.with_log(
        state.log.insert(
            task.target,
            TargetCounts {
                attempts: before.attempts + failures + 1,
                successes: before.successes + 1,
                failures: before.failures,
            },
        ),
    ).finish(task.priority);
    if failures == 0 {
        let next = state.resolve(task, Attempt::Delivered).0;
        assert(next.log =~= expected.log);
        assert(next =~= expected);
    } else {
        let logged = log_event(state.log, task.target, LogEvent::FailedAttempt);
        assert(counts_of(logged, task.target).attempts == before.attempts + 1);
        let (next, verdict) = state.resolve(task, Attempt::Failed);
        let left = spend(task.remaining);
        let retry = with_remaining(task, left);
        assert(verdict == Verdict::Retry(left));
        let handed = next.take_front();
        assert(next.queue(task.priority) =~= seq![retry]);
        assert(handed.high =~= Seq::<TaskView>::empty());
        assert(handed.low =~= Seq::<TaskView>::empty());
        assert(handed =~= state.with_log(logged));
        law_delivery_after_failures(handed, retry, (failures - 1) as nat);
        let after = fail_then_deliver(handed, retry, (failures - 1) as nat);
        assert(after.log =~= expected.log);
        assert(after =~= expected);
    }
}

/// The number of tasks that one operation admits to a tier.
pub open spec fn admitted_by(state: DispatcherState, operation: Operation, priority: Priority) -> nat {
    match operation {
        Operation::Enqueue(task) => if task.priority == priority && state.has_room(priority) {
            1
        } else {
            0
        },
        _ => 0,
    }
}

/// The number of tasks of a tier that one operation brings to a terminal
/// outcome: a success, a drop for want of budget, or a drop by flush.
pub open spec fn ended_by(state: DispatcherState, operation: Operation, priority: Priority) -> nat {
    match operation {
        Operation::Resolve(task, attempt) => if task.priority == priority && state.in_flight(
            priority,
        ) > 0 && is_terminal(state.resolve(task, attempt).1) {
            1
        } else {
            0
        },
        Operation::Requeue(task) => if task.priority == priority && state.in_flight(priority) > 0
            && is_terminal(state.requeue(task).1) {
            1
        } else {
            0
        },
        Operation::FlushLow => if priority == Priority::Low {
            state.low.len()
        } else {
            0
        },
        _ => 0,
    }
}

/// The number of tasks that a sequence of operations admits to a tier.
pub open spec fn admitted(
    state: DispatcherState,
    operations: Seq<Operation>,
    priority: Priority,
) -> nat
    decreases operations.len(),
{
    if operations.len() == 0 {
        0
    } else {
        admitted(state, operations.drop_last(), priority) + admitted_by(
            run(state, operations.drop_last()),
            operations.last(),
            priority,
        )
    }
}

/// The number of tasks of a tier that a sequence of operations brings to
/// a terminal outcome.
pub open spec fn ended(
    state: DispatcherState,
    operations: Seq<Operation>,
    priority: Priority,
) -> nat
    decreases operations.len(),
{
    if operations.len() == 0 {
        0
    } else {
        ended(state, operations.drop_last(), priority) + ended_by(
            run(state, operations.drop_last()),
            operations.last(),
            priority,
        )
    }
}

proof fn lemma_one_operation_balances(
    state: DispatcherState,
    operation: Operation,
    priority: Priority,
)
    requires
        state.wf(),
    ensures
        apply(state, operation).wf(),
        apply(state, operation).queued(priority) + ended_by(state, operation, priority)
            == state.queued(priority) + admitted_by(state, operation, priority),
{
    match operation {
        Operation::Resolve(task, attempt) => {
            if state.in_flight(task.priority) > 0 {
                law_operations_preserve_wf(state, task, attempt);
                law_terminal_outcome_releases_one(state, task, attempt);
            }
        },
        Operation::Requeue(task) => {
            if state.in_flight(task.priority) > 0 {
                law_operations_preserve_wf(state, task, Attempt::Failed);
                law_terminal_outcome_releases_one(state, task, Attempt::Failed);
            }
        },
        _ => {},
    }
}

/// However the operations of producers, workers and the flush control
/// follow one another, the accounting holds after each of them, and the
/// depth of a tier is what was admitted to it less what reached a terminal
/// outcome. So every admitted task is counted until it ends, it ends at most
/// once, and no more tasks end than were admitted.
pub proof fn law_depth_is_admitted_less_ended(
    state: DispatcherState,
    operations: Seq<Operation>,
    priority: Priority,
)
    requires
        state.wf(),
    ensures
        run(state, operations).wf(),
        run(state, operations).queued(priority) + ended(state, operations, priority)
            == state.queued(priority) + admitted(state, operations, priority),
        ended(state, operations, priority) <= state.queued(priority) + admitted(
            state,
            operations,
            priority,
        ),
    decreases operations.len(),
{
    if operations.len() > 0 {
        law_depth_is_admitted_less_ended(state, operations.drop_last(), priority);
        lemma_one_operation_balances(
            run(state, operations.drop_last()),
            operations.last(),
            priority,
        );
    }
}

} // verus!
