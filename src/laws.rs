//! Laws of the pipeline, stated over the spec of an evaluation pass and of a
//! resumption.
use vstd::prelude::*;

use crate::context::{CtxModel, Phase};
use crate::pipeline::{
    blocked, eval_ok, eval_spec, lemma_step_wf, resume_ok, resume_spec, run, run_ok,
    PipelineModel,
};
use crate::service::Service;
use crate::task::{apply_spec, can_apply, follow_up, AddResponseHeadersTask, Task, TaskOutcome};

verus! {

/// Whether `t`, attempted in context `c`, issues an external call.
pub open spec fn dispatches<S>(t: Task<S>, c: CtxModel) -> bool {
    apply_spec(t, c).1 is Deferred
}

/// Whether none of `tasks`, attempted in order from `s`, issues an external call.
pub open spec fn none_dispatch<S>(s: PipelineModel<S>, tasks: Seq<Task<S>>) -> bool
    decreases tasks.len(),
{
    tasks.len() == 0 || (none_dispatch(s, tasks.drop_last()) && !dispatches(
        tasks.last(),
        run(s, tasks.drop_last()).ctx,
    ))
}

/// Whether each of `tasks`, attempted in order from `s`, is done at its turn.
pub open spec fn all_done<S>(s: PipelineModel<S>, tasks: Seq<Task<S>>) -> bool
    decreases tasks.len(),
{
    tasks.len() == 0 || (all_done(s, tasks.drop_last()) && apply_spec(
        tasks.last(),
        run(s, tasks.drop_last()).ctx,
    ).1 is Done)
}

/// The state at the start of the pass that evaluates `m`.
pub open spec fn pass_start<S>(m: PipelineModel<S>) -> PipelineModel<S> {
    PipelineModel { todos: Seq::empty(), ..m }
}

/// A run in which no task issues a call registers nothing and hands out no token.
pub proof fn lemma_run_without_dispatch<S>(s: PipelineModel<S>, tasks: Seq<Task<S>>)
    requires
        none_dispatch(s, tasks),
    ensures
        run(s, tasks).pending == s.pending,
        run(s, tasks).ctx.token_id == s.ctx.token_id,
    decreases tasks.len(),
{
    if tasks.len() > 0 {
        lemma_run_without_dispatch(s, tasks.drop_last());
    }
}

/// A run in which every task is done queues nothing.
pub proof fn lemma_run_all_done<S>(s: PipelineModel<S>, tasks: Seq<Task<S>>)
    requires
        all_done(s, tasks),
    ensures
        none_dispatch(s, tasks),
        run(s, tasks).todos == s.todos,
    decreases tasks.len(),
{
    if tasks.len() > 0 {
        lemma_run_all_done(s, tasks.drop_last());
    }
}

/// A pass in which no predicate lets a task call out creates no pending call;
/// if moreover no task is left pending, and no call was outstanding, the
/// pipeline is quiescent after it.
pub proof fn lemma_pass_without_dispatch<S>(m: PipelineModel<S>)
    requires
        none_dispatch(pass_start(m), m.todos),
    ensures
        eval_spec(m).pending == m.pending,
        all_done(pass_start(m), m.todos) && m.pending.dom().is_empty() ==> eval_spec(
            m,
        ).is_quiescent(),
{
    lemma_run_without_dispatch(pass_start(m), m.todos);
    if all_done(pass_start(m), m.todos) {
        lemma_run_all_done(pass_start(m), m.todos);
    }
}

/// A run registers exactly the tokens it hands out, each with a blocking
/// continuation, and keeps every earlier registration.
pub proof fn lemma_run_registry<S>(s: PipelineModel<S>, tasks: Seq<Task<S>>)
    requires
        s.wf(),
        run_ok(s, tasks),
    ensures
        run(s, tasks).wf(),
        run(s, tasks).ctx.token_id >= s.ctx.token_id,
        forall|k: usize| #[trigger]
            run(s, tasks).pending.contains_key(k) <==> (s.pending.contains_key(k) || (
            s.ctx.token_id < k <= run(s, tasks).ctx.token_id)),
        forall|k: usize| #[trigger]
            s.pending.contains_key(k) ==> run(s, tasks).pending[k] == s.pending[k],
        forall|k: usize|
            s.ctx.token_id < k <= run(s, tasks).ctx.token_id ==> (#[trigger] run(
                s,
                tasks,
            ).pending[k]).is_blocking,
    decreases tasks.len(),
{
    if tasks.len() > 0 {
        let prev = run(s, tasks.drop_last());
        lemma_run_registry(s, tasks.drop_last());
        lemma_step_wf(prev, tasks.last());
    }
}

/// Every token that a pass hands out is registered once, under a blocking
/// continuation; so the pipeline is blocked after a pass that issued a call.
pub proof fn lemma_pass_registers_issued_tokens<S>(m: PipelineModel<S>)
    requires
        m.wf(),
        eval_ok(m),
    ensures
        eval_spec(m).ctx.token_id >= m.ctx.token_id,
        eval_spec(m).pending.dom() == m.pending.dom().union(
            Set::new(|k: usize| m.ctx.token_id < k <= eval_spec(m).ctx.token_id),
        ),
        forall|k: usize|
            m.ctx.token_id < k <= eval_spec(m).ctx.token_id ==> (
            #[trigger] eval_spec(m).pending[k]).is_blocking,
        eval_spec(m).ctx.token_id > m.ctx.token_id ==> blocked(eval_spec(m).pending),
{
    let r = eval_spec(m);
    lemma_run_registry(pass_start(m), m.todos);
    assert(r.pending.dom() =~= m.pending.dom().union(
        Set::new(|k: usize| m.ctx.token_id < k <= r.ctx.token_id),
    ));
    if r.ctx.token_id > m.ctx.token_id {
        let k = r.ctx.token_id;
        assert(r.pending.contains_key(k) && r.pending[k].is_blocking);
    }
}

/// Whether the follow-up that resuming `token` with `response` yields issues a call.
pub open spec fn resume_dispatches<S: Service>(
    m: PipelineModel<S>,
    token: usize,
    response: Seq<u8>,
) -> bool {
    let p = m.pending[token];
    match follow_up(p, p.service.denies(response)) {
        Some(t) => dispatches(t, m.ctx),
        None => false,
    }
}

/// Resuming a call removes its registration and keeps every other; a new one
/// is added only if the follow-up issues a call, under a token that was free.
/// So the registry shrinks by one, or keeps its size when a call was issued.
pub proof fn lemma_resume_registry<S: Service>(m: PipelineModel<S>, token: usize, response: Seq<u8>)
    requires
        m.wf(),
        m.pending.dom().finite(),
        resume_ok(m, token, response),
    ensures
        !resume_dispatches(m, token, response) ==> resume_spec(m, token, response).pending
            == m.pending.remove(token),
        resume_dispatches(m, token, response) ==> {
            let k = resume_spec(m, token, response).ctx.token_id;
            &&& !m.pending.contains_key(k)
            &&& resume_spec(m, token, response).pending.remove(k) == m.pending.remove(token)
        },
        resume_spec(m, token, response).pending.dom().len() + 1 == m.pending.dom().len() + (
        if resume_dispatches(m, token, response) {
            1int
        } else {
            0int
        }),
{
    let p = m.pending[token];
    let s = PipelineModel { pending: m.pending.remove(token), ..m };
    let r = resume_spec(m, token, response);
    assert(s.wf());
    match follow_up(p, p.service.denies(response)) {
        Some(t) => {
            lemma_step_wf(s, t);
            if dispatches(t, m.ctx) {
                let k = r.ctx.token_id;
                assert(!m.pending.contains_key(k));
                assert(r.pending.remove(k) =~= m.pending.remove(token));
                assert(r.pending.dom() =~= m.pending.dom().remove(token).insert(k));
            } else {
                assert(r.pending.dom() =~= m.pending.dom().remove(token));
            }
        },
        None => {
            assert(r.pending.dom() =~= m.pending.dom().remove(token));
        },
    }
}

/// A blocking registration other than the one resumed survives the
/// resumption, so the pipeline stays blocked until it is resumed itself.
pub proof fn lemma_blocked_until_resumed<S: Service>(
    m: PipelineModel<S>,
    token: usize,
    response: Seq<u8>,
    k: usize,
)
    requires
        m.wf(),
        resume_ok(m, token, response),
        m.pending.contains_key(k),
        m.pending[k].is_blocking,
        k != token,
    ensures
        resume_spec(m, token, response).pending.contains_key(k),
        resume_spec(m, token, response).pending[k] == m.pending[k],
        blocked(resume_spec(m, token, response).pending),
{
    let r = resume_spec(m, token, response);
    let s = PipelineModel { pending: m.pending.remove(token), ..m };
    let p = m.pending[token];
    if let Some(t) = follow_up(p, p.service.denies(response)) {
        lemma_step_wf(s, t);
    }
    assert(r.pending.contains_key(k) && r.pending[k].is_blocking);
}

/// A pass in which every task is done leaves a pipeline that a second pass
/// does not change, and both passes end quiescent when no call was outstanding.
pub proof fn lemma_done_pass_idempotent<S>(m: PipelineModel<S>)
    requires
        all_done(pass_start(m), m.todos),
        m.pending.dom().is_empty(),
    ensures
        eval_spec(m).is_quiescent(),
        eval_spec(eval_spec(m)) == eval_spec(m),
        eval_spec(eval_spec(m)).is_quiescent(),
{
    lemma_run_all_done(pass_start(m), m.todos);
    lemma_pass_without_dispatch(m);
    let r = eval_spec(m);
    assert(r.todos =~= Seq::<Task<S>>::empty());
    assert(pass_start(r) == r);
}

/// The state after `n` evaluation passes from `m`.
pub open spec fn evals<S>(m: PipelineModel<S>, n: nat) -> PipelineModel<S>
    decreases n,
{
    if n == 0 {
        m
    } else {
        eval_spec(evals(m, (n - 1) as nat))
    }
}

/// Before the response headers phase, a header task leaves the context as it
/// is and comes back unchanged.
pub proof fn lemma_headers_wait_for_phase<S>(t: AddResponseHeadersTask, c: CtxModel)
    requires
        c.phase != Some(Phase::ResponseHeaders),
    ensures
        apply_spec(Task::<S>::AddResponseHeaders(t), c) == (c, TaskOutcome::Pending(
            Task::<S>::AddResponseHeaders(t),
        )),
{
}

/// A queue of header tasks outside the response headers phase is left as it
/// is, context included, by any number of evaluation passes.
pub proof fn lemma_header_queue_inert<S>(m: PipelineModel<S>, n: nat)
    requires
        m.ctx.phase != Some(Phase::ResponseHeaders),
        forall|i: int| 0 <= i < m.todos.len() ==> #[trigger] m.todos[i] is AddResponseHeaders,
    ensures
        evals(m, n) == m,
    decreases n,
{
    if n > 0 {
        lemma_header_queue_inert(m, (n - 1) as nat);
        lemma_header_run_inert(pass_start(m), m.todos);
        assert(pass_start(m).todos.add(m.todos) =~= m.todos);
    }
}

/// Header tasks outside the response headers phase leave the context as it is
/// and are queued again in order.
pub proof fn lemma_header_run_inert<S>(s: PipelineModel<S>, tasks: Seq<Task<S>>)
    requires
        s.ctx.phase != Some(Phase::ResponseHeaders),
        forall|i: int| 0 <= i < tasks.len() ==> #[trigger] tasks[i] is AddResponseHeaders,
    ensures
        run(s, tasks) == (PipelineModel { todos: s.todos.add(tasks), ..s }),
    decreases tasks.len(),
{
    if tasks.len() > 0 {
        lemma_header_run_inert(s, tasks.drop_last());
        assert(tasks.last() is AddResponseHeaders);
        assert(s.todos.add(tasks.drop_last()).push(tasks.last()) =~= s.todos.add(tasks));
    } else {
        assert(s.todos.add(tasks) =~= s.todos);
    }
}

} // verus!
