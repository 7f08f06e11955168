//! The dispatch pipeline: the work queue, the registry of continuations waiting
//! on external calls, and the transaction context they act on.
use std::collections::BTreeMap;

use vstd::prelude::*;
use vstd::std_specs::iter::IteratorSpec;

use crate::context::{CtxModel, ReqRespCtx};
use crate::service::Service;
use crate::task::{apply_spec, can_apply, follow_up, PendingTask, Task, TaskOutcome};

verus! {

broadcast use vstd::std_specs::btree::group_btree_axioms;

/// Runs the tasks of one transaction and resumes the continuations of their calls.
pub struct Pipeline<S> {
    pub ctx: ReqRespCtx,
    pub todos: Vec<Task<S>>,
    pub pending_tasks: BTreeMap<usize, PendingTask<S>>,
}

/// Mathematical model of a [`Pipeline`].
pub struct PipelineModel<S> {
    pub ctx: CtxModel,
    /// The work queue, in order of evaluation.
    pub todos: Seq<Task<S>>,
    /// The registry: token of an outstanding call to its continuation.
    pub pending: Map<usize, PendingTask<S>>,
}

impl<S> View for Pipeline<S> {
    type V = PipelineModel<S>;

    open spec fn view(&self) -> PipelineModel<S> {
        PipelineModel { ctx: self.ctx@, todos: self.todos@, pending: self.pending_tasks@ }
    }
}

impl<S> PipelineModel<S> {
    /// Every registered token was handed out by the context, so the next one
    /// it hands out is free.
    pub open spec fn wf(self) -> bool {
        forall|k: usize| #[trigger] self.pending.contains_key(k) ==> k <= self.ctx.token_id
    }

    /// Neither queued work nor outstanding calls are left.
    pub open spec fn is_quiescent(self) -> bool {
        self.todos.len() == 0 && self.pending.dom().is_empty()
    }

    /// The state after routing an outcome obtained in context `c`: a deferred
    /// task is registered, a pending one is queued, a finished one dropped.
    pub open spec fn route(self, c: CtxModel, out: TaskOutcome<S>) -> PipelineModel<S> {
        match out {
            TaskOutcome::Done => PipelineModel { ctx: c, ..self },
            TaskOutcome::Deferred((k, p)) => PipelineModel {
                ctx: c,
                pending: self.pending.insert(k, p),
                ..self
            },
            TaskOutcome::Pending(t) => PipelineModel { ctx: c, todos: self.todos.push(t), ..self },
        }
    }

    /// The state after attempting `t` and routing its outcome.
    pub open spec fn step(self, t: Task<S>) -> PipelineModel<S> {
        let (c, out) = apply_spec(t, self.ctx);
        self.route(c, out)
    }
}

/// Whether some registered continuation holds the transaction.
pub open spec fn blocked<S>(pending: Map<usize, PendingTask<S>>) -> bool {
    exists|k: usize| #[trigger] pending.contains_key(k) && pending[k].is_blocking
}

/// The state after attempting `tasks` in order from `s`.
pub open spec fn run<S>(s: PipelineModel<S>, tasks: Seq<Task<S>>) -> PipelineModel<S>
    decreases tasks.len(),
{
    if tasks.len() == 0 {
        s
    } else {
        run(s, tasks.drop_last()).step(tasks.last())
    }
}

/// Whether each of `tasks`, attempted in order from `s`, can be attempted.
pub open spec fn run_ok<S>(s: PipelineModel<S>, tasks: Seq<Task<S>>) -> bool
    decreases tasks.len(),
{
    tasks.len() == 0 || (run_ok(s, tasks.drop_last()) && can_apply(
        tasks.last(),
        run(s, tasks.drop_last()).ctx,
    ))
}

/// The state after one evaluation pass: the queue is taken out, each task is
/// attempted once in order, and those still pending form the new queue.
pub open spec fn eval_spec<S>(m: PipelineModel<S>) -> PipelineModel<S> {
    run(PipelineModel { todos: Seq::empty(), ..m }, m.todos)
}

/// Whether an evaluation pass from `m` can attempt every task.
pub open spec fn eval_ok<S>(m: PipelineModel<S>) -> bool {
    run_ok(PipelineModel { todos: Seq::empty(), ..m }, m.todos)
}

/// The state after the response `response` to the call under `token` has been
/// handed to its continuation, and the follow-up, if any, attempted once.
pub open spec fn resume_spec<S: Service>(
    m: PipelineModel<S>,
    token: usize,
    response: Seq<u8>,
) -> PipelineModel<S> {
    let p = m.pending[token];
    let s = PipelineModel { pending: m.pending.remove(token), ..m };
    match follow_up(p, p.service.denies(response)) {
        Some(t) => s.step(t),
        None => s,
    }
}

/// Whether `response` can be handed to the continuation under `token`: it is
/// registered, and its follow-up can be attempted.
pub open spec fn resume_ok<S: Service>(m: PipelineModel<S>, token: usize, response: Seq<u8>) -> bool {
    &&& m.pending.contains_key(token)
    &&& follow_up(m.pending[token], m.pending[token].service.denies(response)) matches Some(t)
        ==> can_apply(t, m.ctx)
}

/// A step keeps every registered token within those handed out, and a newly
/// registered token was free before.
pub proof fn lemma_step_wf<S>(s: PipelineModel<S>, t: Task<S>)
    requires
        s.wf(),
        can_apply(t, s.ctx),
    ensures
        s.step(t).wf(),
        s.step(t).ctx.token_id >= s.ctx.token_id,
        apply_spec(t, s.ctx).1 matches TaskOutcome::Deferred((k, _)) ==> !s.pending.contains_key(k),
{
}

/// Each prefix of a run that can be attempted can be attempted.
pub proof fn lemma_run_ok_prefix<S>(s: PipelineModel<S>, tasks: Seq<Task<S>>, i: int)
    requires
        run_ok(s, tasks),
        0 <= i <= tasks.len(),
    ensures
        run_ok(s, tasks.take(i)),
    decreases tasks.len(),
{
    if i == tasks.len() {
        assert(tasks.take(i) =~= tasks);
    } else {
        lemma_run_ok_prefix(s, tasks.drop_last(), i);
        assert(tasks.drop_last().take(i) =~= tasks.take(i));
    }
}

impl<S: Service> Pipeline<S> {
    /// Runs one evaluation pass; the pipeline is handed back while work or
    /// outstanding calls remain.
    pub fn eval(self) -> (r: Option<Self>)
        requires
            self@.wf(),
            eval_ok(self@),
        ensures
            match r {
                None => eval_spec(self@).is_quiescent(),
                Some(p) => p@ == eval_spec(self@) && !p@.is_quiescent() && p@.wf(),
            },
    {
        let ghost m = self@;
        let ghost start = PipelineModel { todos: Seq::<Task<S>>::empty(), ..m };
        let Pipeline { mut ctx, todos: queue, mut pending_tasks } = self;
        let mut todos: Vec<Task<S>> = Vec::new();
        assert(m.todos.take(0) =~= Seq::<Task<S>>::empty());
        for task in it: queue.into_iter()
            invariant
                it.seq() == m.todos,
                run_ok(start, m.todos),
                (PipelineModel { ctx: ctx@, todos: todos@, pending: pending_tasks@ }) == run(
                    start,
                    m.todos.take(it.index() as int),
                ),
                (PipelineModel { ctx: ctx@, todos: todos@, pending: pending_tasks@ }).wf(),
        {
            let ghost i = it.index() as int;
            let ghost before = PipelineModel { ctx: ctx@, todos: todos@, pending: pending_tasks@ };
            proof {
                lemma_run_ok_prefix(start, m.todos, i + 1);
                assert(m.todos.take(i + 1).drop_last() =~= m.todos.take(i));
                lemma_step_wf(before, task);
            }
            match task.apply(&mut ctx) {
                TaskOutcome::Done => {},
                TaskOutcome::Deferred((token_id, t)) => {
                    let previous = pending_tasks.insert(token_id, t);
                    assert(previous is None);
                },
                TaskOutcome::Pending(action) => todos.push(action),
            }
            proof {
                assert(m.todos.take(i + 1).last() == task);
            }
        }
        assert(m.todos.take(m.todos.len() as int) =~= m.todos);
        if pending_tasks.is_empty() && todos.is_empty() {
            None
        } else {
            Some(Pipeline { ctx, todos, pending_tasks })
        }
    }

    /// Hands the response of the call under `token_id` to its continuation, and
    /// attempts the follow-up it yields once, routing the outcome as a pass does.
    pub fn digest(&mut self, token_id: usize, response: Vec<u8>)
        requires
            old(self)@.wf(),
            resume_ok(old(self)@, token_id, response@),
        ensures
            final(self)@ == resume_spec(old(self)@, token_id, response@),
            final(self)@.wf(),
    {
        let ghost m = self@;
        let ghost msg = response@;
        if let Some(pending) = self.pending_tasks.remove(&token_id) {
            let ghost removed = PipelineModel { pending: m.pending.remove(token_id), ..m };
            if let Some(action) = pending.process_response(response) {
                let action = *action;
                proof {
                    lemma_step_wf(removed, action);
                }
                match action.apply(&mut self.ctx) {
                    TaskOutcome::Done => {},
                    TaskOutcome::Deferred((token_id, pending_task)) => {
                        let previous = self.pending_tasks.insert(token_id, pending_task);
                        assert(previous is None);
                    },
                    TaskOutcome::Pending(action) => self.todos.push(action),
                }
            }
        }
    }

    /// Whether some outstanding call holds the transaction.
    pub fn is_blocked(&self) -> (r: bool)
        ensures
            r == blocked(self.pending_tasks@),
    {
        let mut found = false;
        let values = self.pending_tasks.values();
        let ghost vals = IteratorSpec::remaining(&values);
        for p in it: values
            invariant
                it.seq() == vals,
                found == exists|i: int| 0 <= i < it.index() && (#[trigger] vals[i]).is_blocking,
        {
            if p.is_blocking() {
                found = true;
            }
        }
        proof {
            let m = self.pending_tasks@;
            let vs = vals.unref();
            assert(vs.to_set() == m.values());
            if found {
                let i = choose|i: int| 0 <= i < vals.len() && (#[trigger] vals[i]).is_blocking;
                assert(vs.contains(vs[i]));
                assert(m.values().contains(vs[i]));
                let k = choose|k: usize| #[trigger] m.contains_key(k) && m[k] == vs[i];
                assert(m.contains_key(k) && m[k].is_blocking);
            }
            if blocked(m) {
                let k = choose|k: usize| #[trigger] m.contains_key(k) && m[k].is_blocking;
                assert(m.values().contains(m[k]));
                assert(vs.contains(m[k]));
                let i = choose|i: int| 0 <= i < vs.len() && vs[i] == m[k];
                assert(vals[i].is_blocking);
            }
        }
        found
    }

    /// Whether neither queued work nor outstanding calls are left; a pipeline
    /// is only to be discarded in that state.
    pub fn is_quiescent(&self) -> (r: bool)
        ensures
            r == self@.is_quiescent(),
    {
        self.todos.is_empty() && self.pending_tasks.is_empty()
    }
}

} // verus!
