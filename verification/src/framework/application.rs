//! The scheduler and what it hands to its workers.

use vstd::prelude::*;
use vstd::string::StringExecFns;
use crate::clients::common::{unit_answer, ClientTrait};
use crate::error::{Error, ErrorView};
use crate::framework::database::Database;
use crate::framework::logger::{Entry, Logger};
use crate::framework::workers::common::WorkerTrait;
use crate::loggers::common::{LogLevel, LoggerTrait};

verus! {

/// A boolean flag, lowered when made.
///
/// The scheduler's quit flag is one: whoever holds the context raises it,
/// and the scheduler looks at it between iterations.
#[derive(Debug)]
pub struct BoolFlag {
    value: bool,
}

impl View for BoolFlag {
    type V = bool;

    closed spec fn view(&self) -> bool {
        self.value
    }
}

impl BoolFlag {
    /// A lowered flag.
    pub fn new() -> (f: BoolFlag)
        ensures
            !f@,
    {
        BoolFlag { value: false }
    }

    /// Raises or lowers the flag.
    pub fn set(&mut self, value: bool)
        ensures
            final(self)@ == value,
    {
        self.value = value;
    }

    /// Whether the flag is raised.
    pub fn get(&self) -> (b: bool)
        ensures
            b == self@,
    {
        self.value
    }
}

/// What the scheduler hands to each worker: the database, the logger and the
/// quit flag.
pub struct Context<C: ClientTrait, L: LoggerTrait> {
    pub database: Database<C>,
    pub logger: Logger<L>,
    pub quit: BoolFlag,
}

impl<C: ClientTrait, L: LoggerTrait> Context<C, L> {
    /// A context with the quit flag lowered.
    pub fn new(database: Database<C>, logger: Logger<L>) -> (ctx: Self)
        ensures
            ctx.database == database,
            ctx.logger == logger,
            !ctx.quit@,
    {
        Context { database, logger, quit: BoolFlag::new() }
    }

    /// The database.
    pub fn database(&self) -> (d: &Database<C>)
        ensures
            *d == self.database,
    {
        &self.database
    }

    /// The logger.
    pub fn logger(&self) -> (l: &Logger<L>)
        ensures
            *l == self.logger,
    {
        &self.logger
    }

    /// The quit flag.
    pub fn quit(&self) -> (q: &BoolFlag)
        ensures
            *q == self.quit,
    {
        &self.quit
    }
}

/// Whether `post` is `pre` after one line was logged and nothing else
/// happened.
pub open spec fn noted<C: ClientTrait, L: LoggerTrait>(
    pre: Context<C, L>,
    entry: Entry,
    post: Context<C, L>,
) -> bool {
    &&& post.database == pre.database
    &&& post.quit == pre.quit
    &&& L::recorded(pre.logger.inner, entry.0, entry.1, post.logger.inner)
}

/// Whether `post` is `pre` after the outcome of one call of a worker was
/// dealt with: nothing happens on success, and a failure is logged as an
/// error, `prefix` before its description.
pub open spec fn reported<C: ClientTrait, L: LoggerTrait>(
    pre: Context<C, L>,
    prefix: Seq<char>,
    outcome: Result<(), ErrorView>,
    post: Context<C, L>,
) -> bool {
    match outcome {
        Ok(_) => post == pre,
        Err(e) => noted(pre, (LogLevel::Error, prefix + e.prefix() + e.message()), post),
    }
}

/// The three calls the scheduler makes of every worker in one go.
#[derive(Debug, Clone, Copy, PartialEq, Eq, Structural)]
pub enum Phase {
    Initialize,
    Deinitialize,
    Events,
}

impl Phase {
    /// What is logged before the description of a failure in this phase.
    pub open spec fn prefix(self) -> Seq<char> {
        match self {
            Phase::Initialize => "[qdb::framework::application::Application::initialize] Error while initializing worker: "@,
            Phase::Deinitialize => "[qdb::framework::application::Application::deinitialize] Error while deinitializing worker: "@,
            Phase::Events => "[qdb::framework::application::Application::process_events] Error while processing events: "@,
        }
    }

    /// Whether `post` and `post_ctx` are what the phase's call of one worker
    /// gives.
    pub open spec fn stepped<C: ClientTrait, L: LoggerTrait, W: WorkerTrait<C, L>>(
        self,
        pre: W,
        pre_ctx: Context<C, L>,
        post: W,
        post_ctx: Context<C, L>,
        outcome: Result<(), ErrorView>,
    ) -> bool {
        match self {
            Phase::Initialize => W::initialized(pre, pre_ctx, post, post_ctx, outcome),
            Phase::Deinitialize => W::deinitialized(pre, pre_ctx, post, post_ctx, outcome),
            Phase::Events => W::events_processed(pre, post, outcome) && post_ctx == pre_ctx,
        }
    }

    fn prefix_text(&self) -> (s: &'static str)
        ensures
            s@ == self.prefix(),
    {
        match self {
            Phase::Initialize => "[qdb::framework::application::Application::initialize] Error while initializing worker: ",
            Phase::Deinitialize => "[qdb::framework::application::Application::deinitialize] Error while deinitializing worker: ",
            Phase::Events => "[qdb::framework::application::Application::process_events] Error while processing events: ",
        }
    }
}

/// Whether `post` and `post_ctx` are what one phase gives: every worker is
/// called once, in order, each on the context the one before it left, and
/// the failure of a worker is logged and keeps no other worker from its call.
/// `outcomes` holds how each call ended.
pub open spec fn swept<C: ClientTrait, L: LoggerTrait, W: WorkerTrait<C, L>>(
    phase: Phase,
    pre: Seq<W>,
    pre_ctx: Context<C, L>,
    post: Seq<W>,
    post_ctx: Context<C, L>,
    outcomes: Seq<Result<(), ErrorView>>,
) -> bool
    decreases pre.len(),
{
    &&& post.len() == pre.len()
    &&& outcomes.len() == pre.len()
    &&& if pre.len() == 0 {
        post_ctx == pre_ctx
    } else {
        exists|mid: Context<C, L>, stepped: Context<C, L>|
            {
                &&& swept(
                    phase,
                    pre.drop_last(),
                    pre_ctx,
                    post.drop_last(),
                    mid,
                    outcomes.drop_last(),
                )
                &&& #[trigger] phase.stepped(pre.last(), mid, post.last(), stepped, outcomes.last())
                &&& reported(stepped, phase.prefix(), outcomes.last(), post_ctx)
            }
    }
}

/// What is logged before the description of a failed tick.
pub open spec fn work_prefix() -> Seq<char> {
    "[qdb::framework::application::Application::do_work] Error while executing worker: "@
}

/// One worker's turn within an iteration, with everything in between.
pub ghost struct Turn<C: ClientTrait, L: LoggerTrait, W: WorkerTrait<C, L>> {
    /// The workers and the context before the turn.
    pub before: Seq<W>,
    pub before_ctx: Context<C, L>,
    /// The worker and the context after its tick.
    pub worked: W,
    pub worked_ctx: Context<C, L>,
    /// The context after the outcome of the tick was dealt with.
    pub reported_ctx: Context<C, L>,
    /// How each worker's processing of its events ended.
    pub events: Seq<Result<(), ErrorView>>,
}

/// Whether `turn` is the turn of the worker at `index` that ends with `post`
/// and `post_ctx`: the worker ticks, its failure, if any, is logged, and
/// then every worker processes its events.
pub open spec fn took_turn<C: ClientTrait, L: LoggerTrait, W: WorkerTrait<C, L>>(
    turn: Turn<C, L, W>,
    index: int,
    outcome: Result<(), ErrorView>,
    post: Seq<W>,
    post_ctx: Context<C, L>,
) -> bool {
    &&& 0 <= index < turn.before.len()
    &&& W::worked(turn.before[index], turn.before_ctx, turn.worked, turn.worked_ctx, outcome)
    &&& reported(turn.worked_ctx, work_prefix(), outcome, turn.reported_ctx)
    &&& swept(
        Phase::Events,
        turn.before.update(index, turn.worked),
        turn.reported_ctx,
        post,
        post_ctx,
        turn.events,
    )
}

/// Whether `post` and `post_ctx` are what the turns of the first `count`
/// workers give, taken in order. `outcomes` holds how each tick ended.
pub open spec fn iterated<C: ClientTrait, L: LoggerTrait, W: WorkerTrait<C, L>>(
    count: nat,
    pre: Seq<W>,
    pre_ctx: Context<C, L>,
    post: Seq<W>,
    post_ctx: Context<C, L>,
    outcomes: Seq<Result<(), ErrorView>>,
) -> bool
    decreases count,
{
    &&& outcomes.len() == count
    &&& post.len() == pre.len()
    &&& if count == 0 {
        post == pre && post_ctx == pre_ctx
    } else {
        exists|turn: Turn<C, L, W>|
            {
                &&& iterated(
                    (count - 1) as nat,
                    pre,
                    pre_ctx,
                    turn.before,
                    turn.before_ctx,
                    outcomes.drop_last(),
                )
                &&& #[trigger] took_turn(turn, count - 1, outcomes.last(), post, post_ctx)
            }
    }
}

/// The line logged when the scheduler sets its workers up.
pub open spec fn initializing_line() -> Entry {
    (
        LogLevel::Info,
        "[qdb::framework::application::Application::initialize] Initializing application"@,
    )
}

/// The line logged when the scheduler tears its workers down.
pub open spec fn deinitializing_line() -> Entry {
    (
        LogLevel::Info,
        "[qdb::framework::application::Application::deinitialize] Deinitializing application"@,
    )
}

/// The line logged when the scheduler is done.
pub open spec fn shutting_down_line() -> Entry {
    (
        LogLevel::Info,
        "[qdb::framework::application::Application::deinitialize] Shutting down now"@,
    )
}

/// The scheduler: an ordered list of workers and the length of an iteration.
pub struct Application<W> {
    workers: Vec<W>,
    loop_interval_ms: u64,
}

impl<W> Application<W> {
    /// The workers, in the order they were added.
    pub closed spec fn workers(&self) -> Seq<W> {
        self.workers@
    }

    /// How long an iteration lasts at least, in milliseconds.
    pub closed spec fn interval(&self) -> u64 {
        self.loop_interval_ms
    }

    /// A scheduler without workers.
    pub fn new(loop_interval_ms: u64) -> (app: Self)
        ensures
            app.workers() == Seq::<W>::empty(),
            app.interval() == loop_interval_ms,
    {
        Application { workers: Vec::new(), loop_interval_ms }
    }

    /// Adds a worker behind those that are there.
    pub fn add_worker(&mut self, worker: W)
        ensures
            final(self).workers() == old(self).workers().push(worker),
            final(self).interval() == old(self).interval(),
    {
        self.workers.push(worker);
    }

    /// The number of workers.
    pub fn worker_count(&self) -> (n: usize)
        ensures
            n == self.workers().len(),
    {
        self.workers.len()
    }

    /// The worker at `index`.
    pub fn worker(&self, index: usize) -> (w: &W)
        requires
            index < self.workers().len(),
        ensures
            *w == self.workers()[index as int],
    {
        &self.workers[index]
    }

    /// The worker at `index`, to change it in place.
    pub fn worker_mut(&mut self, index: usize) -> (w: &mut W)
        requires
            index < old(self).workers().len(),
        ensures
            *w == old(self).workers()[index as int],
            final(self).workers() == old(self).workers().update(index as int, *final(w)),
            final(self).interval() == old(self).interval(),
    {
        &mut self.workers[index]
    }

    /// How long to sleep after an iteration that took `elapsed_ms`: the rest
    /// of the interval, or `None` where the interval is used up or the quit
    /// flag is raised.
    pub fn idle_time<C: ClientTrait, L: LoggerTrait>(&self, ctx: &Context<C, L>, elapsed_ms: u64) -> (t:
        Option<u64>)
        ensures
            t == if !ctx.quit@ && self.interval() > elapsed_ms {
                Some((self.interval() - elapsed_ms) as u64)
            } else {
                None::<u64>
            },
    {
        if !ctx.quit.get() && self.loop_interval_ms > elapsed_ms {
            Some(self.loop_interval_ms - elapsed_ms)
        } else {
            None
        }
    }

    /// Whether another iteration is due: it is until the quit flag is raised.
    pub fn keeps_running<C: ClientTrait, L: LoggerTrait>(&self, ctx: &Context<C, L>) -> (b: bool)
        ensures
            b == !ctx.quit@,
    {
        !ctx.quit.get()
    }

    /// Raises the quit flag: the iteration that runs is the last.
    pub fn request_quit<C: ClientTrait, L: LoggerTrait>(&self, ctx: &mut Context<C, L>)
        ensures
            final(ctx).quit@,
            final(ctx).database == old(ctx).database,
            final(ctx).logger == old(ctx).logger,
    {
        ctx.quit.set(true);
    }
}

/// Logs the failure of a worker's call, if it failed.
fn report<C: ClientTrait, L: LoggerTrait>(
    ctx: &mut Context<C, L>,
    prefix: &str,
    outcome: &Result<(), Error>,
)
    ensures
        reported(*old(ctx), prefix@, unit_answer(*outcome), *final(ctx)),
{
    match outcome {
        Ok(_) => {},
        Err(e) => {
            let text = e.describe();
            let line = prefix.to_owned().concat(text.as_str());
            assert(line@ =~= prefix@ + e@.prefix() + e@.message());
            ctx.logger.error(line.as_str());
        },
    }
}

/// A phase over a list of workers extends by one worker.
proof fn lemma_swept_push<C: ClientTrait, L: LoggerTrait, W: WorkerTrait<C, L>>(
    phase: Phase,
    pre: Seq<W>,
    pre_ctx: Context<C, L>,
    post: Seq<W>,
    mid: Context<C, L>,
    outcomes: Seq<Result<(), ErrorView>>,
    worker: W,
    after: W,
    stepped: Context<C, L>,
    outcome: Result<(), ErrorView>,
    post_ctx: Context<C, L>,
)
    requires
        swept(phase, pre, pre_ctx, post, mid, outcomes),
        phase.stepped(worker, mid, after, stepped, outcome),
        reported(stepped, phase.prefix(), outcome, post_ctx),
    ensures
        swept(
            phase,
            pre.push(worker),
            pre_ctx,
            post.push(after),
            post_ctx,
            outcomes.push(outcome),
        ),
{
    let a = pre.push(worker);
    let b = post.push(after);
    let o = outcomes.push(outcome);
    assert(a.drop_last() == pre);
    assert(b.drop_last() == post);
    assert(o.drop_last() == outcomes);
    assert(swept(phase, a.drop_last(), pre_ctx, b.drop_last(), mid, o.drop_last()));
    assert(phase.stepped(a.last(), mid, b.last(), stepped, o.last()));
    assert(reported(stepped, phase.prefix(), o.last(), post_ctx));
}

impl<W> Application<W> {
    /// Makes the phase's call of every worker, in order, and logs failures.
    fn sweep<C: ClientTrait, L: LoggerTrait>(&mut self, phase: Phase, ctx: &mut Context<C, L>) where
        W: WorkerTrait<C, L>,

        ensures
            final(self).interval() == old(self).interval(),
            exists|outcomes: Seq<Result<(), ErrorView>>|
                swept(
                    phase,
                    old(self).workers(),
                    *old(ctx),
                    final(self).workers(),
                    *final(ctx),
                    outcomes,
                ),
    {
        let ghost mut outcomes: Seq<Result<(), ErrorView>> = Seq::empty();
        let mut i: usize = 0;
        assert(old(self).workers@.take(0) =~= Seq::<W>::empty());
        while i < self.workers.len()
            invariant
                self.loop_interval_ms == old(self).loop_interval_ms,
                self.workers@.len() == old(self).workers@.len(),
                i <= self.workers@.len(),
                forall|j: int| i <= j < self.workers@.len() ==> self.workers@[j] == old(
                    self,
                ).workers@[j],
                swept(
                    phase,
                    old(self).workers@.take(i as int),
                    *old(ctx),
                    self.workers@.take(i as int),
                    *ctx,
                    outcomes,
                ),
            decreases self.workers@.len() - i,
        {
            let ghost mid = *ctx;
            let ghost before = self.workers@;
            let outcome = match phase {
                Phase::Initialize => self.workers[i].intialize(ctx),
                Phase::Deinitialize => self.workers[i].deinitialize(ctx),
                Phase::Events => self.workers[i].process_events(),
            };
            let ghost stepped = *ctx;
            report(ctx, phase.prefix_text(), &outcome);
            proof {
                assert(forall|j: int|
                    0 <= j < before.len() && j != i ==> self.workers@[j] == before[j]);
                lemma_swept_push(
                    phase,
                    old(self).workers@.take(i as int),
                    *old(ctx),
                    before.take(i as int),
                    mid,
                    outcomes,
                    before[i as int],
                    self.workers@[i as int],
                    stepped,
                    unit_answer(outcome),
                    *ctx,
                );
                assert(old(self).workers@.take(i + 1) =~= old(self).workers@.take(i as int).push(
                    before[i as int],
                ));
                assert(self.workers@.take(i + 1) =~= before.take(i as int).push(
                    self.workers@[i as int],
                ));
                outcomes = outcomes.push(unit_answer(outcome));
            }
            i = i + 1;
        }
        proof {
            assert(old(self).workers@.take(i as int) =~= old(self).workers@);
            assert(self.workers@.take(i as int) =~= self.workers@);
            assert(swept(
                phase,
                old(self).workers(),
                *old(ctx),
                self.workers(),
                *ctx,
                outcomes,
            ));
        }
    }

    /// Sets every worker up, in order. The failure of a worker is logged and
    /// keeps no other worker from being set up; the result is always `Ok`.
    pub fn intialize<C: ClientTrait, L: LoggerTrait>(&mut self, ctx: &mut Context<C, L>) -> (r:
        Result<(), Error>) where W: WorkerTrait<C, L>
        ensures
            r is Ok,
            final(self).interval() == old(self).interval(),
            exists|noted_ctx: Context<C, L>, outcomes: Seq<Result<(), ErrorView>>|
                {
                    &&& #[trigger] swept(
                        Phase::Initialize,
                        old(self).workers(),
                        noted_ctx,
                        final(self).workers(),
                        *final(ctx),
                        outcomes,
                    )
                    &&& noted(*old(ctx), initializing_line(), noted_ctx)
                },
    {
        ctx.logger.info(
            "[qdb::framework::application::Application::initialize] Initializing application",
        );
        self.sweep(Phase::Initialize, ctx);
        Ok(())
    }

    /// Has every worker process its events, in order. The failure of a worker
    /// is logged and keeps no other worker from its turn; the result is
    /// always `Ok`.
    pub fn process_events<C: ClientTrait, L: LoggerTrait>(&mut self, ctx: &mut Context<C, L>) -> (r:
        Result<(), Error>) where W: WorkerTrait<C, L>
        ensures
            r is Ok,
            final(self).interval() == old(self).interval(),
            exists|outcomes: Seq<Result<(), ErrorView>>|
                swept(
                    Phase::Events,
                    old(self).workers(),
                    *old(ctx),
                    final(self).workers(),
                    *final(ctx),
                    outcomes,
                ),
    {
        self.sweep(Phase::Events, ctx);
        Ok(())
    }

    /// Tears every worker down, in order. The failure of a worker is logged
    /// and keeps no other worker from being torn down; the result is always
    /// `Ok`.
    pub fn deinitialize<C: ClientTrait, L: LoggerTrait>(&mut self, ctx: &mut Context<C, L>) -> (r:
        Result<(), Error>) where W: WorkerTrait<C, L>
        ensures
            r is Ok,
            final(self).interval() == old(self).interval(),
            exists|noted_ctx: Context<C, L>, swept_ctx: Context<C, L>, outcomes: Seq<Result<(), ErrorView>>|
                {
                    &&& #[trigger] swept(
                        Phase::Deinitialize,
                        old(self).workers(),
                        noted_ctx,
                        final(self).workers(),
                        swept_ctx,
                        outcomes,
                    )
                    &&& noted(*old(ctx), deinitializing_line(), noted_ctx)
                    &&& noted(swept_ctx, shutting_down_line(), *final(ctx))
                },
    {
        ctx.logger.info(
            "[qdb::framework::application::Application::deinitialize] Deinitializing application",
        );
        self.sweep(Phase::Deinitialize, ctx);
        ctx.logger.info(
            "[qdb::framework::application::Application::deinitialize] Shutting down now",
        );
        Ok(())
    }

    /// One iteration: every worker has its turn, in order. In its turn a
    /// worker ticks, its failure, if any, is logged, and then every worker
    /// processes its events. No failure keeps a worker from its turn; the
    /// result is always `Ok`.
    pub fn do_work<C: ClientTrait, L: LoggerTrait>(&mut self, ctx: &mut Context<C, L>) -> (r: Result<
        (),
        Error,
    >) where W: WorkerTrait<C, L>
        ensures
            r is Ok,
            final(self).interval() == old(self).interval(),
            exists|outcomes: Seq<Result<(), ErrorView>>|
                iterated(
                    old(self).workers().len(),
                    old(self).workers(),
                    *old(ctx),
                    final(self).workers(),
                    *final(ctx),
                    outcomes,
                ),
    {
        let ghost mut outcomes: Seq<Result<(), ErrorView>> = Seq::empty();
        let mut i: usize = 0;
        while i < self.workers.len()
            invariant
                self.loop_interval_ms == old(self).loop_interval_ms,
                self.workers@.len() == old(self).workers@.len(),
                i <= self.workers@.len(),
                iterated(i as nat, old(self).workers@, *old(ctx), self.workers@, *ctx, outcomes),
            decreases self.workers@.len() - i,
        {
            let ghost before = self.workers@;
            let ghost before_ctx = *ctx;
            let outcome = self.workers[i].do_work(ctx);
            let ghost worked = self.workers@[i as int];
            let ghost worked_ctx = *ctx;
            report(
                ctx,
                "[qdb::framework::application::Application::do_work] Error while executing worker: ",
                &outcome,
            );
            let ghost reported_ctx = *ctx;
            let ghost stepped = self.workers@;
            self.sweep(Phase::Events, ctx);
            proof {
                assert(stepped =~= before.update(i as int, worked));
                let events = choose|events: Seq<Result<(), ErrorView>>|
                    swept(Phase::Events, stepped, reported_ctx, self.workers@, *ctx, events);
                let turn = Turn {
                    before,
                    before_ctx,
                    worked,
                    worked_ctx,
                    reported_ctx,
                    events,
                };
                let all = outcomes.push(unit_answer(outcome));
                assert(all.drop_last() == outcomes);
                assert(iterated(
                    i as nat,
                    old(self).workers@,
                    *old(ctx),
                    turn.before,
                    turn.before_ctx,
                    all.drop_last(),
                ));
                assert(took_turn(turn, i as int, all.last(), self.workers@, *ctx));
                outcomes = all;
            }
            i = i + 1;
        }
        proof {
            assert(iterated(
                old(self).workers().len(),
                old(self).workers(),
                *old(ctx),
                self.workers(),
                *ctx,
                outcomes,
            ));
        }
        Ok(())
    }
}

/// Scheduler isolation, within an iteration. Whatever the outcomes of the
/// other workers' ticks, each worker has its turn: it ticks on the workers
/// and the context that the turns before it left.
pub proof fn lemma_every_worker_ticks<C: ClientTrait, L: LoggerTrait, W: WorkerTrait<C, L>>(
    count: nat,
    pre: Seq<W>,
    pre_ctx: Context<C, L>,
    post: Seq<W>,
    post_ctx: Context<C, L>,
    outcomes: Seq<Result<(), ErrorView>>,
    index: int,
)
    requires
        iterated(count, pre, pre_ctx, post, post_ctx, outcomes),
        0 <= index < count,
    ensures
        exists|turn: Turn<C, L, W>|
            {
                &&& iterated(
                    index as nat,
                    pre,
                    pre_ctx,
                    turn.before,
                    turn.before_ctx,
                    outcomes.take(index),
                )
                &&& #[trigger] W::worked(
                    turn.before[index],
                    turn.before_ctx,
                    turn.worked,
                    turn.worked_ctx,
                    outcomes[index],
                )
            },
    decreases count,
{
    let turn = choose|turn: Turn<C, L, W>|
        {
            &&& iterated(
                (count - 1) as nat,
                pre,
                pre_ctx,
                turn.before,
                turn.before_ctx,
                outcomes.drop_last(),
            )
            &&& #[trigger] took_turn(turn, count - 1, outcomes.last(), post, post_ctx)
        };
    if index == count - 1 {
        assert(outcomes.take(index) =~= outcomes.drop_last());
        assert(W::worked(
            turn.before[index],
            turn.before_ctx,
            turn.worked,
            turn.worked_ctx,
            outcomes[index],
        ));
    } else {
        lemma_every_worker_ticks(
            (count - 1) as nat,
            pre,
            pre_ctx,
            turn.before,
            turn.before_ctx,
            outcomes.drop_last(),
            index,
        );
        assert(outcomes.drop_last().take(index) =~= outcomes.take(index));
    }
}

/// Scheduler isolation, across iterations. Where a worker's tick fails in
/// one iteration, a worker behind it still ticks in that iteration, and both
/// tick in the next.
pub proof fn lemma_failure_keeps_no_worker_from_ticking<
    C: ClientTrait,
    L: LoggerTrait,
    W: WorkerTrait<C, L>,
>(
    first: Seq<W>,
    first_ctx: Context<C, L>,
    second: Seq<W>,
    second_ctx: Context<C, L>,
    third: Seq<W>,
    third_ctx: Context<C, L>,
    outcomes: Seq<Result<(), ErrorView>>,
    next_outcomes: Seq<Result<(), ErrorView>>,
    failing: int,
    behind: int,
)
    requires
        iterated(first.len(), first, first_ctx, second, second_ctx, outcomes),
        iterated(second.len(), second, second_ctx, third, third_ctx, next_outcomes),
        0 <= failing < behind < first.len(),
        outcomes[failing] is Err,
    ensures
        exists|turn: Turn<C, L, W>| #[trigger]
            W::worked(
                turn.before[behind],
                turn.before_ctx,
                turn.worked,
                turn.worked_ctx,
                outcomes[behind],
            ),
        exists|turn: Turn<C, L, W>| #[trigger]
            W::worked(
                turn.before[failing],
                turn.before_ctx,
                turn.worked,
                turn.worked_ctx,
                next_outcomes[failing],
            ),
        exists|turn: Turn<C, L, W>| #[trigger]
            W::worked(
                turn.before[behind],
                turn.before_ctx,
                turn.worked,
                turn.worked_ctx,
                next_outcomes[behind],
            ),
{
    lemma_every_worker_ticks(first.len(), first, first_ctx, second, second_ctx, outcomes, behind);
    lemma_every_worker_ticks(
        second.len(),
        second,
        second_ctx,
        third,
        third_ctx,
        next_outcomes,
        failing,
    );
    lemma_every_worker_ticks(
        second.len(),
        second,
        second_ctx,
        third,
        third_ctx,
        next_outcomes,
        behind,
    );
}

} // verus!
