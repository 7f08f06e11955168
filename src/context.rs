//! The transaction context that tasks read and mutate, and the predicate that
//! gates a rate-limit task.
use vstd::prelude::*;

verus! {

/// A stage of the request/response transaction, in order of progression.
#[derive(Clone, Copy, Debug, PartialEq, Eq, Structural)]
pub enum Phase {
    RequestHeaders,
    RequestBody,
    ResponseHeaders,
    ResponseBody,
}

/// A value that may not be available yet.
#[derive(Debug, PartialEq)]
pub enum PendingValue<T> {
    Resolved(T),
    Pending,
}

/// Mutable per-transaction state.
///
/// The current phase is set by the host; predicate outcomes are supplied up
/// front as a stack that each predicate evaluation pops from.
pub struct ReqRespCtx {
    pub test_token_id: usize,
    pub test_current_phase: Option<Phase>,
    pub test_predicate_values: Vec<PendingValue<bool>>,
    pub status_code: Option<u32>,
    pub response_headers: Vec<(String, String)>,
}

/// Mathematical model of a [`ReqRespCtx`].
pub struct CtxModel {
    /// The last token handed out (tokens start at 1).
    pub token_id: usize,
    pub phase: Option<Phase>,
    /// Predicate outcomes still to come; the last one is served first.
    pub predicate_values: Seq<PendingValue<bool>>,
    pub status_code: Option<u32>,
    pub response_headers: Seq<(String, String)>,
}

impl CtxModel {
    /// The context after the next token has been handed out.
    pub open spec fn next_token(self) -> CtxModel {
        CtxModel { token_id: (self.token_id + 1) as usize, ..self }
    }

    /// The context after the next predicate outcome has been served.
    pub open spec fn pop_value(self) -> CtxModel {
        CtxModel { predicate_values: self.predicate_values.drop_last(), ..self }
    }

    /// The predicate outcome served next.
    pub open spec fn next_value(self) -> PendingValue<bool> {
        self.predicate_values.last()
    }
}

impl View for ReqRespCtx {
    type V = CtxModel;

    open spec fn view(&self) -> CtxModel {
        CtxModel {
            token_id: self.test_token_id,
            phase: self.test_current_phase,
            predicate_values: self.test_predicate_values@,
            status_code: self.status_code,
            response_headers: self.response_headers@,
        }
    }
}

impl Default for ReqRespCtx {
    fn default() -> (r: ReqRespCtx)
        ensures
            r@ == (CtxModel {
                token_id: 0,
                phase: None,
                predicate_values: Seq::empty(),
                status_code: None,
                response_headers: Seq::empty(),
            }),
    {
        ReqRespCtx {
            test_token_id: 0,
            test_current_phase: None,
            test_predicate_values: Vec::new(),
            status_code: None,
            response_headers: Vec::new(),
        }
    }
}

/// The key whose attribute lookup resolves to a domain.
pub open spec fn domain_key() -> Seq<char> {
    "ratelimit.domain"@
}

impl ReqRespCtx {
    /// Serves the next predicate outcome.
    pub fn test_pop_predicate_value(&mut self) -> (r: PendingValue<bool>)
        requires
            old(self).test_predicate_values.len() > 0,
        ensures
            r == old(self)@.next_value(),
            final(self)@ == old(self)@.pop_value(),
    {
        self.test_predicate_values.pop().expect("Expected a value")
    }

    /// Hands out a fresh token, one more than the last.
    pub fn next_token_id(&mut self) -> (r: usize)
        requires
            old(self).test_token_id < usize::MAX,
        ensures
            final(self)@ == old(self)@.next_token(),
            r == final(self).test_token_id,
    {
        self.test_token_id += 1;
        self.test_token_id
    }

    /// Looks up a transaction attribute: only the domain key is known.
    pub fn get_attribute(&self, key: &str) -> (r: PendingValue<Option<String>>)
        ensures
            match r {
                PendingValue::Resolved(Some(v)) => key@ == domain_key() && v@ == "example"@,
                PendingValue::Resolved(None) => key@ != domain_key(),
                PendingValue::Pending => false,
            },
    {
        let k = key.to_owned();
        let domain = "ratelimit.domain".to_owned();
        if k == domain {
            PendingValue::Resolved(Some("example".to_owned()))
        } else {
            PendingValue::Resolved(None)
        }
    }
}

/// Checks the attribute lookup of a fresh context on a known and an unknown key.
pub fn it_gets_attributes() {
    let ctx = ReqRespCtx::default();
    let missing = ctx.get_attribute("doesntexist");
    let domain = ctx.get_attribute("ratelimit.domain");
    proof {
        reveal_strlit("doesntexist");
        reveal_strlit("ratelimit.domain");
        assert("doesntexist"@[0] != "ratelimit.domain"@[0]);
    }
    assert(missing matches PendingValue::Resolved(None));
    assert(match domain {
        PendingValue::Resolved(Some(v)) => v@ == "example"@,
        _ => false,
    });
}

/// A condition on the transaction that may not be decidable yet.
pub struct Predicate {}

impl Predicate {
    /// Evaluates the condition: the context serves its next predicate outcome.
    pub fn eval(&self, ctx: &mut ReqRespCtx) -> (r: PendingValue<bool>)
        requires
            old(ctx).test_predicate_values.len() > 0,
        ensures
            r == old(ctx)@.next_value(),
            final(ctx)@ == old(ctx)@.pop_value(),
    {
        ctx.test_pop_predicate_value()
    }
}

} // verus!
