//! The retry budget: how a delivery attempt is classified and what becomes
//! of a task after it.

use vstd::prelude::*;

verus! {

/// What the transport reports of one delivery to one target.
#[derive(Clone, Copy, Debug, PartialEq, Eq, Structural)]
pub enum TransportResult {
    /// The target answered with this status code.
    Responded(u16),
    /// The connection could not be established.
    ConnectionRefused,
    /// No answer arrived in time.
    TimedOut,
    /// The exchange broke off or was not valid HTTP.
    ProtocolError,
}

/// How one delivery attempt ended, as far as the retry policy cares.
#[derive(Clone, Copy, Debug, PartialEq, Eq, Structural)]
pub enum Attempt {
    Delivered,
    Failed,
}

/// What becomes of a task after one attempt.
#[derive(Clone, Copy, Debug, PartialEq, Eq, Structural)]
pub enum AttemptOutcome {
    /// Delivered; the task is done.
    Success,
    /// Failed; the task is to be queued again with this budget.
    Retry(u32),
    /// Failed with nothing left of the budget; the task is given up.
    Exhausted,
}

/// Whether a status code is of the server-error class.
pub open spec fn is_server_error(status: u16) -> bool {
    500 <= status && status <= 599
}

/// Every transport error and every server-error response is a failure;
/// any other response is a delivery. No failure is treated as final.
pub open spec fn attempt_of(result: TransportResult) -> Attempt {
    match result {
        TransportResult::Responded(status) => if is_server_error(status) {
            Attempt::Failed
        } else {
            Attempt::Delivered
        },
        _ => Attempt::Failed,
    }
}

/// The budget after one attempt has been consumed. An empty budget stays
/// empty.
pub open spec fn spend(remaining: nat) -> nat {
    if remaining > 0 {
        (remaining - 1) as nat
    } else {
        0
    }
}

/// The retry rule: a delivered task succeeds; a failed one is retried while
/// the budget that is left after this attempt is positive.
pub open spec fn outcome_of(remaining: nat, attempt: Attempt) -> AttemptOutcome {
    match attempt {
        Attempt::Delivered => AttemptOutcome::Success,
        Attempt::Failed => if spend(remaining) > 0 {
            AttemptOutcome::Retry(spend(remaining) as u32)
        } else {
            AttemptOutcome::Exhausted
        },
    }
}

/// Classifies what the transport reported.
pub fn classify(result: TransportResult) -> (r: Attempt)
    ensures
        r == attempt_of(result),
{
    match result {
        TransportResult::Responded(status) => {
            if 500 <= status && status <= 599 {
                Attempt::Failed
            } else {
                Attempt::Delivered
            }
        },
        _ => Attempt::Failed,
    }
}

/// Consumes one attempt of a budget.
pub fn spend_one(remaining: u32) -> (r: u32)
    ensures
        r == spend(remaining as nat),
{
    if remaining > 0 {
        remaining - 1
    } else {
        0
    }
}

/// Applies the retry rule to a task with `remaining` attempts whose latest
/// attempt ended as `attempt`.
pub fn decide(remaining: u32, attempt: Attempt) -> (r: AttemptOutcome)
    ensures
        r == outcome_of(remaining as nat, attempt),
{
    match attempt {
        Attempt::Delivered => AttemptOutcome::Success,
        Attempt::Failed => {
            let left = spend_one(remaining);
            if left > 0 {
                AttemptOutcome::Retry(left)
            } else {
                AttemptOutcome::Exhausted
            }
        },
    }
}

/// A task that keeps failing is attempted as often as its budget says, and
/// at least once: each failure leaves one attempt fewer, and the failure
/// that leaves none exhausts the task.
pub proof fn law_budget_bounds_retries(remaining: nat)
    requires
        remaining <= u32::MAX,
    ensures
        remaining <= 1 ==> outcome_of(remaining, Attempt::Failed) == AttemptOutcome::Exhausted,
        remaining > 1 ==> outcome_of(remaining, Attempt::Failed) == AttemptOutcome::Retry(
            (remaining - 1) as u32,
        ),
        outcome_of(remaining, Attempt::Delivered) == AttemptOutcome::Success,
{
}

} // verus!
