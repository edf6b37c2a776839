//! The connection supervisor.
//!
//! Once per tick the worker looks at the network and at the transport, and
//! either repairs the connection or polls for notifications. It tells its
//! listeners when the database connection is lost (`false`) and when it is
//! made (`true`).

use vstd::prelude::*;
use crate::clients::common::{Call, ClientTrait};
use crate::error::{Error, ErrorView};
use crate::framework::application::Context;
use crate::framework::events::emitter::{
    emitted,
    lemma_delivered_exact,
    Emitter,
    MailboxView,
    SlotToken,
};
use crate::framework::logger::{lemma_recorded_push, recorded_all, Entry};
use crate::framework::notification::unknown_token_in_batch;
use crate::framework::workers::common::WorkerTrait;
use crate::loggers::common::{LogLevel, LoggerTrait};

verus! {

/// The event buses of the supervisor.
pub struct Emitters {
    /// Emits `true` when the database connection is made and `false` when it
    /// is lost.
    pub connection_status: Emitter<bool>,
}

/// The signals the supervisor takes in.
pub struct Receivers {
    /// Whether the network is reachable, as it was signalled, oldest first.
    /// `None` where no signal is wired.
    pub network_connection_status: Option<Vec<bool>>,
}

/// What the supervisor holds of the two connections. Only the supervisor
/// changes it.
pub struct Connectivity {
    database: bool,
    network: bool,
}

impl Connectivity {
    /// Whether the database is held connected.
    pub closed spec fn database(&self) -> bool {
        self.database
    }

    /// Whether the network is held reachable.
    pub closed spec fn network(&self) -> bool {
        self.network
    }

    /// Whether the database is held connected.
    pub fn is_database_up(&self) -> (b: bool)
        ensures
            b == self.database(),
    {
        self.database
    }

    /// Whether the network is held reachable.
    pub fn is_network_up(&self) -> (b: bool)
        ensures
            b == self.network(),
    {
        self.network
    }
}

/// The connection supervisor.
pub struct Worker {
    pub connectivity: Connectivity,
    pub emitters: Emitters,
    pub receivers: Receivers,
}

/// The warning logged when the network is lost while the database is held
/// connected.
pub open spec fn network_lost_line() -> Entry {
    (
        LogLevel::Warning,
        "[qdb::framework::workers::database::Worker::do_work] Network connection loss has disrupted database connection"@,
    )
}

/// The warning logged when the database connection is lost.
pub open spec fn database_lost_line() -> Entry {
    (
        LogLevel::Warning,
        "[qdb::framework::workers::database::Worker::do_work] Disconnected from database"@,
    )
}

/// The message logged before each attempt to connect.
pub open spec fn attempt_line() -> Entry {
    (
        LogLevel::Debug,
        "[qdb::framework::workers::database::Worker::do_work] Attempting to connect to the database..."@,
    )
}

/// The message logged when the database connection is made.
pub open spec fn connected_line() -> Entry {
    (
        LogLevel::Info,
        "[qdb::framework::workers::database::Worker::do_work] Connected to the database"@,
    )
}

/// The message logged when the worker is set up.
pub open spec fn initializing_line() -> Entry {
    (
        LogLevel::Info,
        "[qdb::framework::workers::database::Worker::initialize] Initializing database worker"@,
    )
}

/// The message logged when the worker is torn down.
pub open spec fn deinitializing_line() -> Entry {
    (
        LogLevel::Info,
        "[qdb::framework::workers::database::Worker::deinitialize] Deinitializing database worker"@,
    )
}

impl Worker {
    /// Whether the supervisor holds the database connected.
    pub open spec fn db_connected(&self) -> bool {
        self.connectivity.database()
    }

    /// Whether the supervisor holds the network reachable.
    pub open spec fn nw_connected(&self) -> bool {
        self.connectivity.network()
    }

    /// A supervisor that holds both the network and the database
    /// disconnected, with no listener and no signal wired.
    pub fn new() -> (w: Worker)
        ensures
            !w.db_connected(),
            !w.nw_connected(),
            w.emitters.connection_status@ == Map::<SlotToken, MailboxView<bool>>::empty(),
            w.emitters.connection_status.issued() == 0,
            w.receivers.network_connection_status is None,
    {
        Worker {
            connectivity: Connectivity { database: false, network: false },
            emitters: Emitters { connection_status: Emitter::new() },
            receivers: Receivers { network_connection_status: None },
        }
    }

    /// Whether the supervisor holds the database connected.
    pub fn is_db_connected(&self) -> (b: bool)
        ensures
            b == self.db_connected(),
    {
        self.connectivity.database
    }

    /// Whether the supervisor holds the network reachable.
    pub fn is_nw_connected(&self) -> (b: bool)
        ensures
            b == self.nw_connected(),
    {
        self.connectivity.network
    }

    /// One tick with the network down: a database connection that was held is
    /// given up and `false` is emitted. Neither the transport nor the
    /// registry is touched.
    pub open spec fn network_down<C: ClientTrait, L: LoggerTrait>(
        pre: Worker,
        pre_ctx: Context<C, L>,
        post: Worker,
        post_ctx: Context<C, L>,
        outcome: Result<(), ErrorView>,
    ) -> bool {
        &&& outcome == Ok::<(), ErrorView>(())
        &&& post_ctx.database == pre_ctx.database
        &&& !post.db_connected()
        &&& if pre.db_connected() {
            &&& post.emitters.connection_status@ == emitted(
                pre.emitters.connection_status@,
                false,
            )
            &&& recorded_all(
                pre_ctx.logger.inner,
                seq![network_lost_line()],
                post_ctx.logger.inner,
            )
        } else {
            &&& post.emitters.connection_status@ == pre.emitters.connection_status@
            &&& post_ctx.logger == pre_ctx.logger
        }
    }

    /// What is logged in one tick with the network up and the transport not
    /// connected.
    pub open spec fn repair_lines(lost: bool, made: bool) -> Seq<Entry> {
        (if lost {
            seq![database_lost_line()]
        } else {
            Seq::empty()
        }) + seq![attempt_line()] + (if made {
            seq![connected_line()]
        } else {
            Seq::empty()
        })
    }

    /// One tick with the network up and the transport not connected. A
    /// database connection that was held is given up: the registry is
    /// cleared and `false` is emitted. Then the transport is asked to
    /// disconnect and to connect; where it then holds itself connected, the
    /// connection is held again and `true` is emitted.
    pub open spec fn database_down<C: ClientTrait, L: LoggerTrait>(
        pre: Worker,
        pre_ctx: Context<C, L>,
        post: Worker,
        post_ctx: Context<C, L>,
        outcome: Result<(), ErrorView>,
    ) -> bool {
        let lost = pre.db_connected();
        let made = outcome is Ok && post_ctx.database.client.is_connected();
        let before = pre_ctx.database.client.journal();
        let after = post_ctx.database.client.journal();
        let status = if lost {
            emitted(pre.emitters.connection_status@, false)
        } else {
            pre.emitters.connection_status@
        };
        &&& after.len() == before.len() + 2
        &&& after.take(before.len() as int) == before
        &&& after[before.len() as int] is Disconnect
        &&& after[before.len() as int + 1] == (Call::Connect { answer: outcome })
        &&& post_ctx.database.notification_manager@ == if lost {
            pre_ctx.database.notification_manager@.cleared()
        } else {
            pre_ctx.database.notification_manager@
        }
        &&& post.db_connected() == made
        &&& post.emitters.connection_status@ == if made {
            emitted(status, true)
        } else {
            status
        }
        &&& recorded_all(
            pre_ctx.logger.inner,
            Self::repair_lines(lost, made),
            post_ctx.logger.inner,
        )
    }

    /// One tick with the network up and the transport connected: the
    /// transport is polled, once, and what it has is handed to the listeners
    /// of the registry. The supervisor itself does not change.
    pub open spec fn steady<C: ClientTrait, L: LoggerTrait>(
        pre: Worker,
        pre_ctx: Context<C, L>,
        post: Worker,
        post_ctx: Context<C, L>,
        outcome: Result<(), ErrorView>,
    ) -> bool {
        let before = pre_ctx.database.client.journal();
        let after = post_ctx.database.client.journal();
        let registry = pre_ctx.database.notification_manager@;
        &&& post.db_connected() == pre.db_connected()
        &&& post.emitters.connection_status@ == pre.emitters.connection_status@
        &&& post_ctx.logger == pre_ctx.logger
        &&& after.len() == before.len() + 1
        &&& after.drop_last() == before
        &&& match after.last() {
            Call::GetNotifications { answer: Ok(batch) } => {
                &&& post_ctx.database.notification_manager@ == registry.deliver_all(batch)
                &&& outcome == if registry.knows_all(batch) {
                    Ok::<(), ErrorView>(())
                } else {
                    Err::<(), ErrorView>(unknown_token_in_batch())
                }
            },
            Call::GetNotifications { answer: Err(error) } => {
                &&& post_ctx.database.notification_manager@ == registry
                &&& outcome == Err::<(), ErrorView>(error)
            },
            _ => false,
        }
    }

    /// One tick of the supervisor.
    pub open spec fn supervised<C: ClientTrait, L: LoggerTrait>(
        pre: Worker,
        pre_ctx: Context<C, L>,
        post: Worker,
        post_ctx: Context<C, L>,
        outcome: Result<(), ErrorView>,
    ) -> bool {
        &&& post.nw_connected() == pre.nw_connected()
        &&& post.receivers == pre.receivers
        &&& post.emitters.connection_status.issued() == pre.emitters.connection_status.issued()
        &&& post_ctx.quit == pre_ctx.quit
        &&& if !pre.nw_connected() {
            Self::network_down(pre, pre_ctx, post, post_ctx, outcome)
        } else if !pre_ctx.database.client.is_connected() {
            Self::database_down(pre, pre_ctx, post, post_ctx, outcome)
        } else {
            Self::steady(pre, pre_ctx, post, post_ctx, outcome)
        }
    }
}

impl Worker {
    /// Gives up the database connection: the flag is lowered and `false` is
    /// emitted.
    fn give_up(&mut self)
        ensures
            !final(self).db_connected(),
            final(self).nw_connected() == old(self).nw_connected(),
            final(self).receivers == old(self).receivers,
            final(self).emitters.connection_status.issued() == old(
                self,
            ).emitters.connection_status.issued(),
            final(self).emitters.connection_status@ == emitted(
                old(self).emitters.connection_status@,
                false,
            ),
    {
        self.connectivity.database = false;
        let ghost before = self.emitters.connection_status@;
        self.emitters.connection_status.emit(false);
        proof {
            lemma_delivered_exact(before, false, self.emitters.connection_status@);
        }
    }

    /// Holds the database connected: the flag is raised and `true` is emitted.
    fn hold(&mut self)
        ensures
            final(self).db_connected(),
            final(self).nw_connected() == old(self).nw_connected(),
            final(self).receivers == old(self).receivers,
            final(self).emitters.connection_status.issued() == old(
                self,
            ).emitters.connection_status.issued(),
            final(self).emitters.connection_status@ == emitted(
                old(self).emitters.connection_status@,
                true,
            ),
    {
        self.connectivity.database = true;
        let ghost before = self.emitters.connection_status@;
        self.emitters.connection_status.emit(true);
        proof {
            lemma_delivered_exact(before, true, self.emitters.connection_status@);
        }
    }
}

impl<C: ClientTrait, L: LoggerTrait> WorkerTrait<C, L> for Worker {
    /// Setting the supervisor up logs one line and changes nothing else.
    open spec fn initialized(
        pre: Self,
        pre_ctx: Context<C, L>,
        post: Self,
        post_ctx: Context<C, L>,
        outcome: Result<(), ErrorView>,
    ) -> bool {
        &&& outcome == Ok::<(), ErrorView>(())
        &&& post == pre
        &&& post_ctx.database == pre_ctx.database
        &&& post_ctx.quit == pre_ctx.quit
        &&& recorded_all(pre_ctx.logger.inner, seq![initializing_line()], post_ctx.logger.inner)
    }

    open spec fn worked(
        pre: Self,
        pre_ctx: Context<C, L>,
        post: Self,
        post_ctx: Context<C, L>,
        outcome: Result<(), ErrorView>,
    ) -> bool {
        Worker::supervised(pre, pre_ctx, post, post_ctx, outcome)
    }

    /// Tearing the supervisor down logs one line and changes nothing else.
    open spec fn deinitialized(
        pre: Self,
        pre_ctx: Context<C, L>,
        post: Self,
        post_ctx: Context<C, L>,
        outcome: Result<(), ErrorView>,
    ) -> bool {
        &&& outcome == Ok::<(), ErrorView>(())
        &&& post == pre
        &&& post_ctx.database == pre_ctx.database
        &&& post_ctx.quit == pre_ctx.quit
        &&& recorded_all(pre_ctx.logger.inner, seq![deinitializing_line()], post_ctx.logger.inner)
    }

    /// Processing events takes in every network signal that waits: the last
    /// one says whether the network is reachable, and none is left.
    open spec fn events_processed(pre: Self, post: Self, outcome: Result<(), ErrorView>) -> bool {
        &&& outcome == Ok::<(), ErrorView>(())
        &&& post.db_connected() == pre.db_connected()
        &&& post.emitters == pre.emitters
        &&& match pre.receivers.network_connection_status {
            Some(signals) => {
                &&& post.receivers.network_connection_status matches Some(left)
                &&& left@ == Seq::<bool>::empty()
                &&& post.nw_connected() == if signals@.len() > 0 {
                    signals@.last()
                } else {
                    pre.nw_connected()
                }
            },
            None => {
                &&& post.receivers.network_connection_status is None
                &&& post.nw_connected() == pre.nw_connected()
            },
        }
    }

    fn intialize(&mut self, ctx: &mut Context<C, L>) -> (r: Result<(), Error>) {
        let ghost before = ctx.logger.inner;
        ctx.logger.info(
            "[qdb::framework::workers::database::Worker::initialize] Initializing database worker",
        );
        proof {
            lemma_recorded_push(
                before,
                Seq::empty(),
                before,
                initializing_line().0,
                initializing_line().1,
                ctx.logger.inner,
            );
            assert(Seq::<Entry>::empty().push(initializing_line()) =~= seq![initializing_line()]);
        }
        Ok(())
    }

    fn do_work(&mut self, ctx: &mut Context<C, L>) -> (r: Result<(), Error>) {
        let ghost start = ctx.logger.inner;
        let ghost mut lines: Seq<Entry> = Seq::empty();
        if !self.connectivity.network {
            if self.connectivity.database {
                ctx.logger.warning(
                    "[qdb::framework::workers::database::Worker::do_work] Network connection loss has disrupted database connection",
                );
                proof {
                    lemma_recorded_push(
                        start,
                        lines,
                        start,
                        network_lost_line().0,
                        network_lost_line().1,
                        ctx.logger.inner,
                    );
                    assert(lines.push(network_lost_line()) =~= seq![network_lost_line()]);
                }
                self.give_up();
            }
            return Ok(());
        }
        if !ctx.database.connected() {
            let lost = self.connectivity.database;
            let ghost journal = ctx.database.client.journal();
            if lost {
                let ghost mid = ctx.logger.inner;
                ctx.logger.warning(
                    "[qdb::framework::workers::database::Worker::do_work] Disconnected from database",
                );
                proof {
                    lemma_recorded_push(
                        start,
                        lines,
                        mid,
                        database_lost_line().0,
                        database_lost_line().1,
                        ctx.logger.inner,
                    );
                    lines = lines.push(database_lost_line());
                }
                ctx.database.clear_notifications();
                self.give_up();
            }
            let ghost mid = ctx.logger.inner;
            ctx.logger.debug(
                "[qdb::framework::workers::database::Worker::do_work] Attempting to connect to the database...",
            );
            proof {
                lemma_recorded_push(
                    start,
                    lines,
                    mid,
                    attempt_line().0,
                    attempt_line().1,
                    ctx.logger.inner,
                );
                lines = lines.push(attempt_line());
            }
            let _ = ctx.database.disconnect();
            let answer = ctx.database.connect();
            proof {
                let after = ctx.database.client.journal();
                assert(after.take(journal.len() as int) =~= journal);
            }
            match answer {
                Ok(_) => {},
                Err(error) => {
                    proof {
                        assert(lines =~= Worker::repair_lines(lost, false));
                    }
                    return Err(error);
                },
            }
            if ctx.database.connected() {
                let ghost mid = ctx.logger.inner;
                ctx.logger.info(
                    "[qdb::framework::workers::database::Worker::do_work] Connected to the database",
                );
                proof {
                    lemma_recorded_push(
                        start,
                        lines,
                        mid,
                        connected_line().0,
                        connected_line().1,
                        ctx.logger.inner,
                    );
                    lines = lines.push(connected_line());
                    assert(lines =~= Worker::repair_lines(lost, true));
                }
                self.hold();
            } else {
                proof {
                    assert(lines =~= Worker::repair_lines(lost, false));
                }
            }
            return Ok(());
        }
        ctx.database.process_notifications()
    }

    fn deinitialize(&mut self, ctx: &mut Context<C, L>) -> (r: Result<(), Error>) {
        let ghost before = ctx.logger.inner;
        ctx.logger.info(
            "[qdb::framework::workers::database::Worker::deinitialize] Deinitializing database worker",
        );
        proof {
            lemma_recorded_push(
                before,
                Seq::empty(),
                before,
                deinitializing_line().0,
                deinitializing_line().1,
                ctx.logger.inner,
            );
            assert(Seq::<Entry>::empty().push(deinitializing_line()) =~= seq![
                deinitializing_line(),
            ]);
        }
        Ok(())
    }

    fn process_events(&mut self) -> (r: Result<(), Error>) {
        let mut signals: Option<Vec<bool>> = None;
        std::mem::swap(&mut signals, &mut self.receivers.network_connection_status);
        match signals {
            Some(waiting) => {
                if waiting.len() > 0 {
                    self.connectivity.network = waiting[waiting.len() - 1];
                }
                self.receivers.network_connection_status = Some(Vec::new());
            },
            None => {},
        }
        Ok(())
    }
}

/// Connectivity transition. With the network up, a supervisor that holds the
/// database connected while the transport has lost the connection, and whose
/// transport holds itself connected again after it was asked to connect,
/// emits `false` once and then `true` once in that tick, clears the registry,
/// and asks the transport to disconnect and to connect and nothing else. Only
/// the tick after that polls the transport, and it emits nothing.
pub proof fn lemma_connectivity_transition<C: ClientTrait, L: LoggerTrait>(
    pre: Worker,
    pre_ctx: Context<C, L>,
    post: Worker,
    post_ctx: Context<C, L>,
    outcome: Result<(), ErrorView>,
    next: Worker,
    next_ctx: Context<C, L>,
    next_outcome: Result<(), ErrorView>,
)
    requires
        pre.nw_connected(),
        pre.db_connected(),
        !pre_ctx.database.client.is_connected(),
        Worker::supervised(pre, pre_ctx, post, post_ctx, outcome),
        outcome is Ok,
        post_ctx.database.client.is_connected(),
        Worker::supervised(post, post_ctx, next, next_ctx, next_outcome),
    ensures
        post.db_connected(),
        post.emitters.connection_status@ == emitted(
            emitted(pre.emitters.connection_status@, false),
            true,
        ),
        post_ctx.database.notification_manager@ == pre_ctx.database.notification_manager@.cleared(),
        post_ctx.database.client.journal().len() == pre_ctx.database.client.journal().len() + 2,
        post_ctx.database.client.journal()[pre_ctx.database.client.journal().len() as int]
            is Disconnect,
        post_ctx.database.client.journal().last() is Connect,
        next.emitters.connection_status@ == post.emitters.connection_status@,
        next_ctx.database.client.journal().drop_last() == post_ctx.database.client.journal(),
        next_ctx.database.client.journal().last() is GetNotifications,
{
}

} // verus!
