//! The capability of an external service that a rate-limit task calls out to.
use vstd::prelude::*;

use crate::context::ReqRespCtx;

verus! {

/// An external service: issues out-of-band calls and interprets their responses.
pub trait Service {
    /// Whether a raw response says that the request is to be denied.
    spec fn denies(&self, message: Seq<u8>) -> bool;

    /// Issues a call; the call is identified by a fresh token from the context.
    fn dispatch(&self, ctx: &mut ReqRespCtx) -> (token: usize)
        requires
            old(ctx).test_token_id < usize::MAX,
        ensures
            final(ctx)@ == old(ctx)@.next_token(),
            token == final(ctx).test_token_id,
    ;

    /// Interprets a raw response: `true` means that the request is denied.
    fn parse_message(&self, message: Vec<u8>) -> (r: bool)
        ensures
            r == self.denies(message@),
    ;
}

/// A stand-in service whose responses deny exactly when their last byte is 1.
pub struct FakeService {}

impl Service for FakeService {
    open spec fn denies(&self, message: Seq<u8>) -> bool {
        message.len() > 0 && message.last() == 1u8
    }

    fn dispatch(&self, ctx: &mut ReqRespCtx) -> (token: usize) {
        ctx.next_token_id()
    }

    fn parse_message(&self, message: Vec<u8>) -> (r: bool) {
        let mut message = message;
        match message.pop() {
            Some(b) => b == 1u8,
            None => false,
        }
    }
}

/// The external limiting service; requests to it are encoded outside this library.
pub struct RateLimitService;

} // verus!
