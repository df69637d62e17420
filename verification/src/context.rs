//! The payload shared by all duplicates of one inbound request, and the
//! unit of work that delivers it to one target.

use crate::headers::{forwarded_fields, header_fields, strip_control_headers};
use crate::priority::Priority;
use axum::http::header::{HeaderMap, HeaderValue};
use axum::http::Method;
use bytes::Bytes;
use std::sync::Arc;
use vstd::prelude::*;

verus! {

/// `http::Method`, the request method. Opaque: it is only carried.
#[verifier::external_type_specification]
#[verifier::external_body]
pub struct ExMethod(Method);

/// `bytes::Bytes`, the request body. Opaque: it is only carried.
#[verifier::external_type_specification]
#[verifier::external_body]
pub struct ExBytes(Bytes);

/// Mathematical content of a [`SharedRequestContext`].
pub struct ContextView {
    pub method: Method,
    pub fields: Map<Seq<char>, Seq<Seq<u8>>>,
    pub body: Bytes,
}

/// Method, forwarded headers and body of one inbound request.
///
/// Built once per inbound request and never changed afterwards; every
/// delivery task of that request holds a reference to the same value. The
/// stored headers never include the duplicator's control headers.
#[derive(Debug)]
pub struct SharedRequestContext {
    method: Method,
    headers: HeaderMap<HeaderValue>,
    body: Bytes,
}

impl View for SharedRequestContext {
    type V = ContextView;

    closed spec fn view(&self) -> ContextView {
        ContextView {
            method: self.method,
            fields: header_fields(self.headers),
            body: self.body,
        }
    }
}

impl SharedRequestContext {
    #[verifier::type_invariant]
    spec fn sanitized(self) -> bool {
        header_fields(self.headers) == forwarded_fields(header_fields(self.headers))
    }

    /// Stores the request, dropping the control headers from `headers`.
    pub fn new(method: Method, headers: HeaderMap<HeaderValue>, body: Bytes) -> (r: Self)
        ensures
            r@.method == method,
            r@.fields == forwarded_fields(header_fields(headers)),
            r@.body == body,
    {
        let headers = strip_control_headers(headers);
        assert(forwarded_fields(header_fields(headers)) =~= header_fields(headers));
        SharedRequestContext { method, headers, body }
    }

    /// The request method.
    pub fn method(&self) -> (r: &Method)
        ensures
            *r == self@.method,
    {
        &self.method
    }

    /// The headers to forward; the control headers are not among them.
    pub fn headers(&self) -> (r: &HeaderMap<HeaderValue>)
        ensures
            header_fields(*r) == self@.fields,
            self@.fields == forwarded_fields(self@.fields),
    {
        proof {
            use_type_invariant(self);
        }
        &self.headers
    }

    /// The request body.
    pub fn body(&self) -> (r: &Bytes)
        ensures
            *r == self@.body,
    {
        &self.body
    }
}

/// Mathematical content of a [`DeliveryTask`].
pub struct TaskView {
    pub target: Seq<char>,
    pub context: ContextView,
    pub remaining: nat,
    pub priority: Priority,
}

/// One pending delivery of a request to one target.
#[derive(Clone, Debug)]
pub struct DeliveryTask {
    /// Destination identifier, for instance a URL.
    pub target: String,
    /// The request to deliver, shared with the sibling tasks.
    pub context: Arc<SharedRequestContext>,
    /// Delivery attempts that are left of the budget.
    pub remaining_attempts: u32,
    /// Queue the task was admitted to and is retried on.
    pub priority: Priority,
}

impl View for DeliveryTask {
    type V = TaskView;

    open spec fn view(&self) -> TaskView {
        TaskView {
            target: self.target@,
            context: (*self.context)@,
            remaining: self.remaining_attempts as nat,
            priority: self.priority,
        }
    }
}

/// The views of a sequence of tasks, in order.
pub open spec fn task_views(tasks: Seq<DeliveryTask>) -> Seq<TaskView> {
    Seq::new(tasks.len(), |i: int| tasks[i]@)
}

/// Appending a task appends its view.
pub proof fn lemma_task_views_push(tasks: Seq<DeliveryTask>, task: DeliveryTask)
    ensures
        task_views(tasks.push(task)) == task_views(tasks).push(task@),
{
    assert(task_views(tasks.push(task)) =~= task_views(tasks).push(task@));
}

/// Dropping the first task drops the first view.
pub proof fn lemma_task_views_skip(tasks: Seq<DeliveryTask>)
    requires
        tasks.len() > 0,
    ensures
        task_views(tasks.subrange(1, tasks.len() as int)) == task_views(tasks).skip(1),
        task_views(tasks)[0] == tasks[0]@,
{
    assert(task_views(tasks.subrange(1, tasks.len() as int)) =~= task_views(tasks).skip(1));
}

/// The tasks one request fans out to: one per target, in the order of the
/// target list, all of them with the same context, budget and priority.
pub open spec fn planned_tasks(
    targets: Seq<Seq<char>>,
    context: ContextView,
    budget: nat,
    priority: Priority,
) -> Seq<TaskView> {
    Seq::new(
        targets.len(),
        |i: int| TaskView { target: targets[i], context, remaining: budget, priority },
    )
}

/// `Arc::clone`: a further handle to the same shared value.
#[verifier::external_body]
fn share(context: &Arc<SharedRequestContext>) -> (r: Arc<SharedRequestContext>)
    ensures
        r == *context,
{
    Arc::clone(context)
}

impl DeliveryTask {
    /// A task for `target` that shares `context`.
    pub fn new(
        target: String,
        context: &Arc<SharedRequestContext>,
        remaining_attempts: u32,
        priority: Priority,
    ) -> (r: Self)
        ensures
            r.target == target,
            r.context == *context,
            r.remaining_attempts == remaining_attempts,
            r.priority == priority,
    {
        DeliveryTask { target, context: share(context), remaining_attempts, priority }
    }
}

/// Creates the delivery tasks of one inbound request: exactly one per
/// entry of `targets`, in order, each holding a handle to `context`.
pub fn fan_out(
    context: &Arc<SharedRequestContext>,
    targets: &Vec<String>,
    budget: u32,
    priority: Priority,
) -> (tasks: Vec<DeliveryTask>)
    ensures
        tasks@.len() == targets@.len(),
        forall|i: int| 0 <= i < tasks@.len() ==> (#[trigger] tasks@[i]).context == *context,
        task_views(tasks@) == planned_tasks(
            crate::targets::texts_of(targets@),
            (**context)@,
            budget as nat,
            priority,
        ),
{
    let mut tasks: Vec<DeliveryTask> = Vec::new();
    let mut i: usize = 0;
    while i < targets.len()
        invariant
            i <= targets@.len(),
            tasks@.len() == i,
            forall|j: int| 0 <= j < i ==> (#[trigger] tasks@[j]).context == *context,
            forall|j: int|
                0 <= j < i ==> (#[trigger] tasks@[j])@ == (TaskView {
                    target: targets@[j]@,
                    context: (**context)@,
                    remaining: budget as nat,
                    priority,
                }),
        decreases targets@.len() - i,
    {
        let task = DeliveryTask::new(targets[i].clone(), context, budget, priority);
        tasks.push(task);
        i = i + 1;
    }
    assert(task_views(tasks@) =~= planned_tasks(
        crate::targets::texts_of(targets@),
        (**context)@,
        budget as nat,
        priority,
    ));
    tasks
}

} // verus!
