//! What the scheduler asks of a worker.

use vstd::prelude::*;
use crate::clients::common::{unit_answer, ClientTrait};
use crate::error::{Error, ErrorView};
use crate::framework::application::Context;
use crate::loggers::common::LoggerTrait;

verus! {

/// A unit of work the scheduler drives: set up once, ticked once per
/// iteration, asked to process its events, and torn down once.
///
/// Each relation says what one call does to the worker and to the context;
/// each function's contract is its relation. A worker that does not say what
/// its relations are leaves them unspecified.
pub trait WorkerTrait<C: ClientTrait, L: LoggerTrait>: Sized {
    /// Whether `post` and `post_ctx` are what setting the worker up gives.
    open spec fn initialized(
        pre: Self,
        pre_ctx: Context<C, L>,
        post: Self,
        post_ctx: Context<C, L>,
        outcome: Result<(), ErrorView>,
    ) -> bool {
        arbitrary()
    }

    /// Whether `post` and `post_ctx` are what one tick of the worker gives.
    open spec fn worked(
        pre: Self,
        pre_ctx: Context<C, L>,
        post: Self,
        post_ctx: Context<C, L>,
        outcome: Result<(), ErrorView>,
    ) -> bool {
        arbitrary()
    }

    /// Whether `post` and `post_ctx` are what tearing the worker down gives.
    open spec fn deinitialized(
        pre: Self,
        pre_ctx: Context<C, L>,
        post: Self,
        post_ctx: Context<C, L>,
        outcome: Result<(), ErrorView>,
    ) -> bool {
        arbitrary()
    }

    /// Whether `post` is the worker after it processed its events.
    open spec fn events_processed(pre: Self, post: Self, outcome: Result<(), ErrorView>) -> bool {
        arbitrary()
    }

    fn intialize(&mut self, ctx: &mut Context<C, L>) -> (r: Result<(), Error>)
        ensures
            Self::initialized(*old(self), *old(ctx), *final(self), *final(ctx), unit_answer(r)),
    ;

    fn do_work(&mut self, ctx: &mut Context<C, L>) -> (r: Result<(), Error>)
        ensures
            Self::worked(*old(self), *old(ctx), *final(self), *final(ctx), unit_answer(r)),
    ;

    fn deinitialize(&mut self, ctx: &mut Context<C, L>) -> (r: Result<(), Error>)
        ensures
            Self::deinitialized(*old(self), *old(ctx), *final(self), *final(ctx), unit_answer(r)),
    ;

    fn process_events(&mut self) -> (r: Result<(), Error>)
        ensures
            Self::events_processed(*old(self), *final(self), unit_answer(r)),
    ;
}

} // verus!
