//! Policy tasks, the outcome of attempting one, and the continuation that a
//! task leaves behind while its external call is outstanding.
use vstd::prelude::*;

use crate::context::{CtxModel, PendingValue, Phase, Predicate, ReqRespCtx};
use crate::service::Service;

verus! {

/// Status code that a denied request ends with.
pub const TOO_MANY_REQUESTS: u32 = 429;

/// Calls out to a service when its predicate holds, and leaves a continuation
/// that picks the allow or the deny follow-up once the response arrives.
pub struct RLTask<S> {
    pub predicate: Predicate,
    pub service: S,
    pub allow_task: Option<Box<Task<S>>>,
    pub deny_task: Box<Task<S>>,
}

/// Sets the outbound response headers; acts only during the response headers phase.
pub struct AddResponseHeadersTask {
    pub headers: Vec<(String, String)>,
}

/// Ends the transaction with status 429.
pub struct TooManyRequestsTask {}

/// A unit of policy logic.
pub enum Task<S> {
    RateLimit(RLTask<S>),
    AddResponseHeaders(AddResponseHeadersTask),
    TooManyRequests(TooManyRequestsTask),
}

/// A continuation registered under the token of an outstanding call.
pub struct PendingTask<S> {
    pub is_blocking: bool,
    pub allow_task: Option<Box<Task<S>>>,
    pub deny_task: Box<Task<S>>,
    pub service: S,
}

/// The result of attempting a task.
pub enum TaskOutcome<S> {
    /// Fully discharged.
    Done,
    /// A call was issued; the continuation waits under the token.
    Deferred((usize, PendingTask<S>)),
    /// To be attempted again on the next pass.
    Pending(Task<S>),
}

impl<S> RLTask<S> {
    /// The continuation left behind once the call is issued.
    pub open spec fn continuation(self) -> PendingTask<S> {
        PendingTask {
            is_blocking: true,
            allow_task: self.allow_task,
            deny_task: self.deny_task,
            service: self.service,
        }
    }
}

/// Whether attempting `task` in context `c` stays within the machine's and the
/// context's means: a predicate outcome to serve, and room for a new token.
pub open spec fn can_apply<S>(task: Task<S>, c: CtxModel) -> bool {
    task is RateLimit ==> {
        &&& c.predicate_values.len() > 0
        &&& c.next_value() == PendingValue::Resolved(true) ==> c.token_id < usize::MAX
    }
}

/// The context after, and the outcome of, attempting `task` in context `c`.
pub open spec fn apply_spec<S>(task: Task<S>, c: CtxModel) -> (CtxModel, TaskOutcome<S>) {
    match task {
        Task::RateLimit(t) => match c.next_value() {
            PendingValue::Resolved(true) => (
                c.pop_value().next_token(),
                TaskOutcome::Deferred(((c.token_id + 1) as usize, t.continuation())),
            ),
            PendingValue::Resolved(false) => (c.pop_value(), TaskOutcome::Done),
            PendingValue::Pending => (c.pop_value(), TaskOutcome::Pending(Task::RateLimit(t))),
        },
        Task::AddResponseHeaders(t) => if c.phase == Some(Phase::ResponseHeaders) {
            (CtxModel { response_headers: t.headers@, ..c }, TaskOutcome::Done)
        } else {
            (c, TaskOutcome::Pending(Task::AddResponseHeaders(t)))
        },
        Task::TooManyRequests(_) => (
            CtxModel { status_code: Some(TOO_MANY_REQUESTS), ..c },
            TaskOutcome::Done,
        ),
    }
}

/// The follow-up that a continuation yields for a response with the given verdict.
pub open spec fn follow_up<S>(p: PendingTask<S>, deny: bool) -> Option<Task<S>> {
    if deny {
        Some(*p.deny_task)
    } else {
        match p.allow_task {
            Some(a) => Some(*a),
            None => None,
        }
    }
}

impl<S: Service> RLTask<S> {
    pub fn apply(self, ctx: &mut ReqRespCtx) -> (r: TaskOutcome<S>)
        requires
            can_apply(Task::RateLimit(self), old(ctx)@),
        ensures
            (final(ctx)@, r) == apply_spec(Task::RateLimit(self), old(ctx)@),
    {
        match self.predicate.eval(ctx) {
            PendingValue::Resolved(exec) => {
                if exec {
                    let token_id: usize = self.service.dispatch(ctx);
                    TaskOutcome::Deferred(
                        (
                            token_id,
                            PendingTask {
                                is_blocking: true,
                                allow_task: self.allow_task,
                                deny_task: self.deny_task,
                                service: self.service,
                            },
                        ),
                    )
                } else {
                    TaskOutcome::Done
                }
            },
            PendingValue::Pending => TaskOutcome::Pending(Task::RateLimit(self)),
        }
    }
}

impl AddResponseHeadersTask {
    pub fn apply<S>(self, ctx: &mut ReqRespCtx) -> (r: TaskOutcome<S>)
        ensures
            (final(ctx)@, r) == apply_spec(Task::<S>::AddResponseHeaders(self), old(ctx)@),
    {
        if ctx.test_current_phase == Some(Phase::ResponseHeaders) {
            ctx.response_headers = self.headers;
            TaskOutcome::Done
        } else {
            TaskOutcome::Pending(Task::AddResponseHeaders(self))
        }
    }
}

impl TooManyRequestsTask {
    pub fn apply<S>(self, ctx: &mut ReqRespCtx) -> (r: TaskOutcome<S>)
        ensures
            (final(ctx)@, r) == apply_spec(Task::<S>::TooManyRequests(self), old(ctx)@),
    {
        ctx.status_code = Some(TOO_MANY_REQUESTS);
        TaskOutcome::Done
    }
}

impl<S: Service> Task<S> {
    /// Attempts the task against the context.
    pub fn apply(self, ctx: &mut ReqRespCtx) -> (r: TaskOutcome<S>)
        requires
            can_apply(self, old(ctx)@),
        ensures
            (final(ctx)@, r) == apply_spec(self, old(ctx)@),
    {
        match self {
            Task::RateLimit(t) => t.apply(ctx),
            Task::AddResponseHeaders(t) => t.apply(ctx),
            Task::TooManyRequests(t) => t.apply(ctx),
        }
    }
}

impl<S: Service> PendingTask<S> {
    /// Picks the follow-up for a response: deny when the service says so, else
    /// allow if there is one.
    pub fn process_response(self, response: Vec<u8>) -> (r: Option<Box<Task<S>>>)
        ensures
            r matches Some(b) ==> follow_up(self, self.service.denies(response@)) == Some(*b),
            r is None ==> follow_up(self, self.service.denies(response@)) is None,
    {
        if self.service.parse_message(response) {
            Some(self.deny_task)
        } else if let Some(action) = self.allow_task {
            Some(action)
        } else {
            None
        }
    }

    pub fn is_blocking(&self) -> (r: bool)
        ensures
            r == self.is_blocking,
    {
        self.is_blocking
    }
}

} // verus!
