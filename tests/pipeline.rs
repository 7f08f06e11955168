use std::collections::BTreeMap;

use dispatch_pipeline::context::{PendingValue, Phase, Predicate, ReqRespCtx};
use dispatch_pipeline::pipeline::Pipeline;
use dispatch_pipeline::service::{FakeService, Service};
use dispatch_pipeline::task::{
    AddResponseHeadersTask, PendingTask, RLTask, Task, TaskOutcome, TooManyRequestsTask,
};

fn too_many_requests() -> Box<Task<FakeService>> {
    Box::new(Task::TooManyRequests(TooManyRequestsTask {}))
}

fn rate_limit(allow_task: Option<Box<Task<FakeService>>>) -> Task<FakeService> {
    Task::RateLimit(RLTask {
        predicate: Predicate {},
        service: FakeService {},
        allow_task,
        deny_task: too_many_requests(),
    })
}

fn limit_header() -> AddResponseHeadersTask {
    AddResponseHeadersTask {
        headers: vec![("X-RateLimit-Limit".to_string(), "10".to_string())],
    }
}

fn pipeline_of(ctx: ReqRespCtx, todos: Vec<Task<FakeService>>) -> Pipeline<FakeService> {
    Pipeline {
        ctx,
        todos,
        pending_tasks: BTreeMap::new(),
    }
}

#[test]
fn it_rate_limits() {
    // on_request_headers
    let mut ctx = ReqRespCtx::default();
    ctx.test_predicate_values.push(PendingValue::Resolved(true));
    let mut pipeline = Pipeline {
        ctx,
        todos: vec![rate_limit(None)],
        pending_tasks: Default::default(),
    };

    pipeline = pipeline
        .eval()
        .expect("Pipeline should be waiting for limitador");
    assert!(pipeline.is_blocked(), "Filter should be paused");

    // on_grpc_call_response
    let buffer: Vec<u8> = vec![1u8];
    let token_id = 1;
    pipeline.digest(token_id, buffer);
    assert!(!pipeline.is_blocked(), "Filter should be continued");
    assert_eq!(pipeline.ctx.status_code, Some(429));
    assert!(pipeline.is_quiescent());
}

#[test]
fn it_not_rate_limits() {
    // on_request_headers
    let mut ctx = ReqRespCtx::default();
    ctx.test_current_phase = Some(Phase::RequestHeaders);
    ctx.test_predicate_values.push(PendingValue::Resolved(true));
    let mut pipeline = Pipeline {
        ctx: ctx,
        todos: vec![rate_limit(Some(Box::new(Task::AddResponseHeaders(
            limit_header(),
        ))))],
        pending_tasks: Default::default(),
    };

    pipeline = pipeline
        .eval()
        .expect("Pipeline should be waiting for limitador");
    assert!(pipeline.is_blocked(), "Filter should be paused");

    // on_grpc_call_response
    let buffer: Vec<u8> = Vec::new();
    let token_id = 1;
    pipeline.digest(token_id, buffer);
    assert!(!pipeline.is_blocked(), "Filter should be continued");
    assert_eq!(pipeline.ctx.status_code, None);
    assert!(
        pipeline.ctx.response_headers.is_empty(),
        "Headers should be empty"
    );

    // on_request_body
    pipeline = pipeline.eval().expect("Not done yet");
    assert!(
        pipeline.ctx.response_headers.is_empty(),
        "Headers should be empty"
    );

    // on_response_headers
    pipeline.ctx.test_current_phase = Some(Phase::ResponseHeaders);
    assert!(pipeline.eval().is_none(), "Done now");
}

#[test]
fn it_token_rate_limits() {
    // on_request_headers
    let mut ctx = ReqRespCtx::default();
    ctx.test_current_phase = Some(Phase::RequestHeaders);
    ctx.test_predicate_values
        .insert(0, PendingValue::Resolved(true));
    ctx.test_predicate_values.insert(0, PendingValue::Pending);
    ctx.test_predicate_values.insert(0, PendingValue::Pending);
    ctx.test_predicate_values.insert(0, PendingValue::Pending);
    ctx.test_predicate_values
        .insert(0, PendingValue::Resolved(true));
    let mut pipeline = Pipeline {
        ctx: ctx,
        todos: vec![rate_limit(None), rate_limit(None)],
        pending_tasks: Default::default(),
    };

    pipeline = pipeline
        .eval()
        .expect("Pipeline should be waiting for limitador");
    assert!(pipeline.is_blocked(), "Filter should be paused");

    // on_grpc_call_response
    let buffer: Vec<u8> = Vec::new();
    let token_id = 1;
    pipeline.digest(token_id, buffer);
    assert!(!pipeline.is_blocked(), "Filter should be continued");
    assert_eq!(pipeline.ctx.status_code, None);

    // on_request_body
    pipeline = pipeline.eval().expect("Not done yet");

    // on_response_headers
    pipeline = pipeline.eval().expect("Not done yet");

    // on_response_body
    pipeline = pipeline.eval().expect("Not done yet");

    // on_grpc_response
    pipeline.digest(2, vec![1u8]);
    assert_eq!(pipeline.ctx.status_code, Some(429));
    assert!(pipeline.is_quiescent());
}

#[test]
fn gets_attributes_of_a_fresh_context() {
    dispatch_pipeline::context::it_gets_attributes();
    let ctx = ReqRespCtx::default();
    assert_eq!(
        ctx.get_attribute("doesntexist"),
        PendingValue::Resolved(None)
    );
    assert_eq!(
        ctx.get_attribute("ratelimit.domain"),
        PendingValue::Resolved(Some("example".to_string()))
    );
    assert_eq!(ctx.get_attribute(""), PendingValue::Resolved(None));
}

#[test]
fn pass_without_true_predicate_is_quiescent() {
    let mut ctx = ReqRespCtx::default();
    ctx.test_current_phase = Some(Phase::ResponseHeaders);
    ctx.test_predicate_values.push(PendingValue::Resolved(false));
    ctx.test_predicate_values.push(PendingValue::Resolved(false));
    let todos = vec![
        rate_limit(None),
        Task::AddResponseHeaders(limit_header()),
        rate_limit(None),
        Task::TooManyRequests(TooManyRequestsTask {}),
    ];
    assert!(pipeline_of(ctx, todos).eval().is_none());
}

#[test]
fn empty_pipeline_is_quiescent() {
    let pipeline = pipeline_of(ReqRespCtx::default(), Vec::new());
    assert!(pipeline.is_quiescent());
    assert!(!pipeline.is_blocked());
    assert!(pipeline.eval().is_none());
}

#[test]
fn pending_predicate_keeps_the_task_queued() {
    let mut ctx = ReqRespCtx::default();
    ctx.test_predicate_values.push(PendingValue::Pending);
    let pipeline = pipeline_of(ctx, vec![rate_limit(None)])
        .eval()
        .expect("the task waits for its predicate");
    assert_eq!(pipeline.todos.len(), 1);
    assert!(pipeline.pending_tasks.is_empty());
    assert!(!pipeline.is_blocked());
    assert!(pipeline.ctx.test_predicate_values.is_empty());
}

#[test]
fn issued_tokens_are_registered_and_block_until_all_resumed() {
    let mut ctx = ReqRespCtx::default();
    ctx.test_predicate_values.push(PendingValue::Resolved(true));
    ctx.test_predicate_values.push(PendingValue::Resolved(true));
    let mut pipeline = pipeline_of(ctx, vec![rate_limit(None), rate_limit(None)])
        .eval()
        .expect("two calls are outstanding");
    assert_eq!(pipeline.ctx.test_token_id, 2);
    assert_eq!(
        pipeline.pending_tasks.keys().copied().collect::<Vec<_>>(),
        vec![1, 2]
    );
    assert!(pipeline.is_blocked());
    pipeline.digest(2, Vec::new());
    assert!(pipeline.is_blocked());
    assert!(pipeline.pending_tasks.contains_key(&1));
    pipeline.digest(1, Vec::new());
    assert!(!pipeline.is_blocked());
    assert!(pipeline.is_quiescent());
}

#[test]
fn resume_removes_one_registration() {
    let mut ctx = ReqRespCtx::default();
    ctx.test_predicate_values.push(PendingValue::Resolved(true));
    ctx.test_predicate_values.push(PendingValue::Resolved(true));
    let mut pipeline = pipeline_of(ctx, vec![rate_limit(None), rate_limit(None)])
        .eval()
        .expect("two calls are outstanding");
    assert_eq!(pipeline.pending_tasks.len(), 2);
    pipeline.digest(1, vec![1u8]);
    assert_eq!(pipeline.pending_tasks.len(), 1);
    assert_eq!(pipeline.ctx.status_code, Some(429));
    assert!(pipeline.pending_tasks.contains_key(&2));
}

#[test]
fn resume_with_chained_call_keeps_registry_size() {
    let mut ctx = ReqRespCtx::default();
    // served last to first: the task's own predicate, then its follow-up's
    ctx.test_predicate_values.push(PendingValue::Resolved(true));
    ctx.test_predicate_values.push(PendingValue::Resolved(true));
    let chained = Task::RateLimit(RLTask {
        predicate: Predicate {},
        service: FakeService {},
        allow_task: None,
        deny_task: Box::new(rate_limit(None)),
    });
    let mut pipeline = pipeline_of(ctx, vec![chained])
        .eval()
        .expect("one call is outstanding");
    assert_eq!(pipeline.pending_tasks.len(), 1);
    pipeline.digest(1, vec![1u8]);
    assert_eq!(pipeline.pending_tasks.len(), 1);
    assert!(pipeline.pending_tasks.contains_key(&2));
    assert!(pipeline.is_blocked());
    assert_eq!(pipeline.ctx.status_code, None);
    pipeline.digest(2, vec![1u8]);
    assert_eq!(pipeline.ctx.status_code, Some(429));
    assert!(pipeline.is_quiescent());
}

#[test]
fn done_tasks_applied_twice_change_nothing_more() {
    let mut ctx = ReqRespCtx::default();
    ctx.test_current_phase = Some(Phase::ResponseHeaders);
    for _ in 0..2 {
        let out: TaskOutcome<FakeService> =
            Task::TooManyRequests(TooManyRequestsTask {}).apply(&mut ctx);
        assert!(matches!(out, TaskOutcome::Done));
        let out: TaskOutcome<FakeService> =
            Task::AddResponseHeaders(limit_header()).apply(&mut ctx);
        assert!(matches!(out, TaskOutcome::Done));
        assert_eq!(ctx.status_code, Some(429));
        assert_eq!(
            ctx.response_headers,
            vec![("X-RateLimit-Limit".to_string(), "10".to_string())]
        );
    }
    let pipeline = pipeline_of(ctx, vec![Task::TooManyRequests(TooManyRequestsTask {})]);
    assert!(pipeline.eval().is_none());
}

#[test]
fn header_task_waits_for_response_headers() {
    let mut ctx = ReqRespCtx::default();
    ctx.test_current_phase = Some(Phase::RequestHeaders);
    let mut pipeline = pipeline_of(ctx, vec![Task::AddResponseHeaders(limit_header())]);
    for phase in [
        Phase::RequestHeaders,
        Phase::RequestBody,
        Phase::RequestBody,
        Phase::ResponseBody,
    ] {
        pipeline.ctx.test_current_phase = Some(phase);
        pipeline = pipeline.eval().expect("the header task waits");
        assert!(pipeline.ctx.response_headers.is_empty());
        assert_eq!(pipeline.todos.len(), 1);
    }
    pipeline.ctx.test_current_phase = Some(Phase::ResponseHeaders);
    assert!(pipeline.eval().is_none());
}

#[test]
fn header_task_applies_in_response_headers() {
    let mut ctx = ReqRespCtx::default();
    ctx.test_current_phase = Some(Phase::ResponseHeaders);
    let out: TaskOutcome<FakeService> = limit_header().apply(&mut ctx);
    assert!(matches!(out, TaskOutcome::Done));
    assert_eq!(
        ctx.response_headers,
        vec![("X-RateLimit-Limit".to_string(), "10".to_string())]
    );
    let mut ctx = ReqRespCtx::default();
    let out: TaskOutcome<FakeService> = limit_header().apply(&mut ctx);
    assert!(matches!(out, TaskOutcome::Pending(Task::AddResponseHeaders(_))));
    assert!(ctx.response_headers.is_empty());
}

#[test]
fn staggered_dispatches_get_distinct_tokens() {
    let mut ctx = ReqRespCtx::default();
    // first task resolves at once, second after two pending passes
    ctx.test_predicate_values.push(PendingValue::Resolved(true));
    ctx.test_predicate_values.push(PendingValue::Pending);
    ctx.test_predicate_values.push(PendingValue::Pending);
    ctx.test_predicate_values.push(PendingValue::Resolved(true));
    let mut pipeline = pipeline_of(ctx, vec![rate_limit(None), rate_limit(None)])
        .eval()
        .expect("one call is outstanding");
    assert_eq!(pipeline.pending_tasks.len(), 1);
    assert_eq!(pipeline.todos.len(), 1);
    pipeline = pipeline.eval().expect("second task still waits");
    pipeline = pipeline.eval().expect("second task dispatched");
    assert!(pipeline.todos.is_empty());
    assert_eq!(
        pipeline.pending_tasks.keys().copied().collect::<Vec<_>>(),
        vec![1, 2]
    );
    pipeline.digest(2, vec![1u8]);
    assert_eq!(pipeline.ctx.status_code, Some(429));
    assert!(pipeline.pending_tasks.contains_key(&1));
    assert!(pipeline.is_blocked());
    pipeline.digest(1, Vec::new());
    assert!(pipeline.is_quiescent());
}

#[test]
fn continuation_picks_the_follow_up() {
    let deny = PendingTask {
        is_blocking: true,
        allow_task: None,
        deny_task: too_many_requests(),
        service: FakeService {},
    };
    assert!(matches!(
        deny.process_response(vec![0u8, 1u8]).map(|t| *t),
        Some(Task::TooManyRequests(_))
    ));
    let nothing = PendingTask {
        is_blocking: true,
        allow_task: None,
        deny_task: too_many_requests(),
        service: FakeService {},
    };
    assert!(nothing.process_response(vec![1u8, 0u8]).is_none());
    let allow = PendingTask {
        is_blocking: false,
        allow_task: Some(Box::new(Task::AddResponseHeaders(limit_header()))),
        deny_task: too_many_requests(),
        service: FakeService {},
    };
    assert!(!allow.is_blocking());
    assert!(matches!(
        allow.process_response(Vec::new()).map(|t| *t),
        Some(Task::AddResponseHeaders(_))
    ));
}

#[test]
fn fake_service_reads_the_last_byte() {
    let service = FakeService {};
    assert!(!service.parse_message(Vec::new()));
    assert!(service.parse_message(vec![1u8]));
    assert!(service.parse_message(vec![0u8, 1u8]));
    assert!(!service.parse_message(vec![1u8, 2u8]));
    let mut ctx = ReqRespCtx::default();
    assert_eq!(service.dispatch(&mut ctx), 1);
    assert_eq!(service.dispatch(&mut ctx), 2);
    assert_eq!(ctx.test_token_id, 2);
}

#[test]
fn predicate_serves_values_last_first() {
    let mut ctx = ReqRespCtx::default();
    ctx.test_predicate_values.push(PendingValue::Resolved(false));
    ctx.test_predicate_values.push(PendingValue::Pending);
    let predicate = Predicate {};
    assert_eq!(predicate.eval(&mut ctx), PendingValue::Pending);
    assert_eq!(predicate.eval(&mut ctx), PendingValue::Resolved(false));
    assert!(ctx.test_predicate_values.is_empty());
}
