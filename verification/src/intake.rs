//! Intake of duplication requests: from the headers of an inbound request
//! to the tasks in the queue.

use crate::context::{
    planned_tasks, ContextView, DeliveryTask, SharedRequestContext, TaskView,
};
use crate::dispatcher::Dispatcher;
use crate::headers::{
    forwarded_fields, header_fields, read_targets_header, targets_text,
};
use crate::laws::{all_of_tier, law_enqueues_append_and_count};
use crate::priority::Priority;
use crate::targets::{json_string_array, parse_targets, texts_of, TargetsError};
use axum::http::header::{HeaderMap, HeaderValue};
use axum::http::Method;
use bytes::Bytes;
use std::sync::Arc;
use vstd::prelude::*;

verus! {

/// The target list that the headers of a request ask for, if they carry a
/// usable one.
pub open spec fn requested_targets(fields: Map<Seq<char>, Seq<Seq<u8>>>) -> Option<
    Seq<Seq<char>>,
> {
    match targets_text(fields) {
        Some(text) => json_string_array(text),
        None => None,
    }
}

/// How a duplication request was answered.
#[derive(Clone, Copy, Debug, PartialEq, Eq, Structural)]
pub enum Admission {
    /// Every target got its task; this many were queued.
    Accepted(usize),
    /// The request names no usable target list. Nothing was queued.
    Rejected(TargetsError),
    /// The tier has no room for all tasks of the request. Nothing was
    /// queued.
    Overloaded,
}

/// Body of the answer to the caller.
#[derive(Clone, Copy, Debug, PartialEq, Eq, Structural)]
pub enum DuplicateResponse {
    Success,
    Failure,
}

impl Admission {
    /// The HTTP status that answers the caller: 202 for an accepted
    /// request, 400 for one without usable target list, 503 for one that
    /// was shed.
    pub fn status(&self) -> (r: u16)
        ensures
            r == match *self {
                Admission::Accepted(_) => 202u16,
                Admission::Rejected(_) => 400u16,
                Admission::Overloaded => 503u16,
            },
    {
        match self {
            Admission::Accepted(_) => 202,
            Admission::Rejected(_) => 400,
            Admission::Overloaded => 503,
        }
    }

    /// The body that answers the caller: `Success` for an accepted
    /// request, `Failure` for any other.
    pub fn response(&self) -> (r: DuplicateResponse)
        ensures
            r == if *self is Accepted {
                DuplicateResponse::Success
            } else {
                DuplicateResponse::Failure
            },
    {
        match self {
            Admission::Accepted(_) => DuplicateResponse::Success,
            _ => DuplicateResponse::Failure,
        }
    }
}

/// Extracts the target list from the headers of a request.
///
/// Fails with `MissingHeader` when the target-list header is absent or
/// its first value is not visible text, and with `Malformed` when that text
/// is not a JSON array of strings.
pub fn read_targets(headers: &HeaderMap<HeaderValue>) -> (r: Result<Vec<String>, TargetsError>)
    ensures
        match r {
            Ok(targets) => requested_targets(header_fields(*headers)) == Some(texts_of(targets@)),
            Err(TargetsError::MissingHeader) => targets_text(header_fields(*headers)) is None,
            Err(TargetsError::Malformed) => {
                &&& targets_text(header_fields(*headers)) is Some
                &&& requested_targets(header_fields(*headers)) is None
            },
        },
{
    match read_targets_header(headers) {
        None => Err(TargetsError::MissingHeader),
        Some(text) => parse_targets(text.as_str()),
    }
}

impl Dispatcher {
    /// How many more tasks a tier admits.
    pub fn room(&self, priority: Priority) -> (r: u64)
        requires
            self.wf(),
        ensures
            r == self@.room(priority),
    {
        let slots = (self.capacity() - self.waiting(priority)) as u64;
        let counts = u64::MAX - self.metrics().read_queue_count(priority);
        if slots <= counts {
            slots
        } else {
            counts
        }
    }

    /// Queues one task per target for a request whose context is built,
    /// all or none.
    ///
    /// When the tier has room for as many tasks as there are targets, one
    /// task per target is admitted, in the order of the list, each sharing
    /// `context` and holding the dispatcher's budget; the number of tasks is
    /// returned. Otherwise nothing changes and `None` is returned.
    pub fn submit(
        &mut self,
        context: &Arc<SharedRequestContext>,
        targets: &Vec<String>,
        priority: Priority,
    ) -> (r: Option<usize>)
        requires
            old(self).wf(),
        ensures
            final(self).wf(),
            match r {
                Some(count) => {
                    &&& count == targets@.len()
                    &&& targets@.len() <= old(self)@.room(priority)
                    &&& final(self)@ == old(self)@.enqueue_all(
                        planned_tasks(
                            texts_of(targets@),
                            (**context)@,
                            old(self)@.budget,
                            priority,
                        ),
                    )
                },
                None => {
                    &&& targets@.len() > old(self)@.room(priority)
                    &&& final(self)@ == old(self)@
                },
            },
    {
        let count = targets.len();
        if count as u64 > self.room(priority) {
            return None;
        }
        let budget = self.budget();
        let ghost before = self@;
        let ghost planned = planned_tasks(
            texts_of(targets@),
            (**context)@,
            before.budget,
            priority,
        );
        let mut i: usize = 0;
        proof {
            assert(planned.take(0) =~= Seq::<TaskView>::empty());
        }
        while i < count
            invariant
                i <= count,
                count == targets@.len(),
                count <= before.room(priority),
                before.wf(),
                self.wf(),
                budget == before.budget,
                planned == planned_tasks(
                    texts_of(targets@),
                    (**context)@,
                    before.budget,
                    priority,
                ),
                self@ == before.enqueue_all(planned.take(i as int)),
            decreases count - i,
        {
            let task = DeliveryTask::new(targets[i].clone(), context, budget, priority);
            proof {
                let done = planned.take(i as int);
                assert(all_of_tier(done, priority));
                law_enqueues_append_and_count(before, done, priority);
                assert(task@ == planned[i as int]);
                assert(planned.take(i + 1).drop_last() =~= done);
                assert(planned.take(i + 1).last() == planned[i as int]);
            }
            match self.enqueue(task) {
                Ok(()) => {},
                Err(_) => {
                    proof {
                        assert(false);
                    }
                },
            }
            i = i + 1;
        }
        proof {
            assert(planned.take(count as int) =~= planned);
        }
        Some(count)
    }

    /// Handles one duplication request.
    ///
    /// The target list is read from `headers`. Without a usable list the
    /// request is rejected. Otherwise the request is stored once, without
    /// its control headers, and one task per target is queued under
    /// `priority`, all or none: when the tier lacks room for all of them the
    /// request is shed. A rejected or shed request changes nothing.
    pub fn duplicate(
        &mut self,
        method: Method,
        headers: HeaderMap<HeaderValue>,
        body: Bytes,
        priority: Priority,
    ) -> (r: Admission)
        requires
            old(self).wf(),
        ensures
            final(self).wf(),
            match r {
                Admission::Accepted(count) => {
                    &&& requested_targets(header_fields(headers)) matches Some(targets)
                    &&& count == targets.len()
                    &&& targets.len() <= old(self)@.room(priority)
                    &&& final(self)@ == old(self)@.enqueue_all(
                        planned_tasks(
                            targets,
                            ContextView {
                                method,
                                fields: forwarded_fields(header_fields(headers)),
                                body,
                            },
                            old(self)@.budget,
                            priority,
                        ),
                    )
                },
                Admission::Rejected(TargetsError::MissingHeader) => {
                    &&& targets_text(header_fields(headers)) is None
                    &&& final(self)@ == old(self)@
                },
                Admission::Rejected(TargetsError::Malformed) => {
                    &&& targets_text(header_fields(headers)) is Some
                    &&& requested_targets(header_fields(headers)) is None
                    &&& final(self)@ == old(self)@
                },
                Admission::Overloaded => {
                    &&& requested_targets(header_fields(headers)) matches Some(targets)
                    &&& targets.len() > old(self)@.room(priority)
                    &&& final(self)@ == old(self)@
                },
            },
    {
        let targets = match read_targets(&headers) {
            Ok(targets) => targets,
            Err(e) => {
                return Admission::Rejected(e);
            },
        };
        let context = Arc::new(SharedRequestContext::new(method, headers, body));
        match self.submit(&context, &targets, priority) {
            Some(count) => Admission::Accepted(count),
            None => Admission::Overloaded,
        }
    }
}

} // verus!
