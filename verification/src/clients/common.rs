//! The capability interface of a transport.
//!
//! The framework never talks to the remote service itself: it asks a
//! [`ClientTrait`] to. The trait keeps a journal, in ghost state, of every
//! request made through it and of the answer each got, so that a function's
//! contract can say which requests it made, in which order, and how its own
//! result follows from the answers.

use vstd::prelude::*;
use crate::error::{Error, ErrorView};
use crate::schema::entity::{Entity, EntityView};
use crate::schema::field::{DatabaseField, FieldView};
use crate::schema::notification::{
    field_views,
    ConfigView,
    DatabaseNotification,
    NotificationConfig,
    NotificationToken,
    NotificationView,
};

verus! {

/// One request made of a transport, with its answer.
#[allow(inconsistent_fields)]
pub ghost enum Call {
    Connect { answer: Result<(), ErrorView> },
    Disconnect { answer: bool },
    GetEntities { entity_type: Seq<char>, answer: Result<Seq<EntityView>, ErrorView> },
    GetEntity { entity_id: Seq<char>, answer: Result<EntityView, ErrorView> },
    GetNotifications { answer: Result<Seq<NotificationView>, ErrorView> },
    Read { requests: Seq<FieldView>, answer: Result<(), ErrorView>, filled: Seq<FieldView> },
    Register { config: ConfigView, answer: Result<Seq<char>, ErrorView> },
    Unregister { token: Seq<char>, answer: Result<(), ErrorView> },
    Write { requests: Seq<FieldView>, answer: Result<(), ErrorView> },
}

/// The contents of a list of entities, in order.
pub open spec fn entity_views(v: Seq<Entity>) -> Seq<EntityView> {
    Seq::new(v.len(), |i: int| v[i]@)
}

/// The contents of a list of notifications, in order.
pub open spec fn notification_views(v: Seq<DatabaseNotification>) -> Seq<NotificationView> {
    Seq::new(v.len(), |i: int| v[i]@)
}

/// The mathematical content of an answer without a value.
pub open spec fn unit_answer(r: Result<(), Error>) -> Result<(), ErrorView> {
    match r {
        Ok(_) => Ok(()),
        Err(e) => Err(e@),
    }
}

/// The mathematical content of an answer that carries a token.
pub open spec fn token_answer(r: Result<NotificationToken, Error>) -> Result<Seq<char>, ErrorView> {
    match r {
        Ok(t) => Ok(t@),
        Err(e) => Err(e@),
    }
}

/// The mathematical content of an answer that carries one entity.
pub open spec fn entity_answer(r: Result<Entity, Error>) -> Result<EntityView, ErrorView> {
    match r {
        Ok(x) => Ok(x@),
        Err(e) => Err(e@),
    }
}

/// The mathematical content of an answer that carries entities.
pub open spec fn entities_answer(r: Result<Vec<Entity>, Error>) -> Result<
    Seq<EntityView>,
    ErrorView,
> {
    match r {
        Ok(v) => Ok(entity_views(v@)),
        Err(e) => Err(e@),
    }
}

/// The mathematical content of an answer that carries notifications.
pub open spec fn notifications_answer(r: Result<Vec<DatabaseNotification>, Error>) -> Result<
    Seq<NotificationView>,
    ErrorView,
> {
    match r {
        Ok(v) => Ok(notification_views(v@)),
        Err(e) => Err(e@),
    }
}

/// What the framework asks of the remote service.
///
/// Every request adds exactly one entry to the journal; asking whether the
/// transport is connected is no request and adds none.
pub trait ClientTrait: Sized {
    /// The requests made so far, oldest first, each with its answer.
    open spec fn journal(&self) -> Seq<Call> {
        arbitrary()
    }

    /// Whether the transport holds itself connected.
    open spec fn is_connected(&self) -> bool {
        arbitrary()
    }

    fn connect(&mut self) -> (r: Result<(), Error>)
        ensures
            final(self).journal() == old(self).journal().push(
                Call::Connect { answer: unit_answer(r) },
            ),
    ;

    fn connected(&self) -> (b: bool)
        ensures
            b == self.is_connected(),
    ;

    fn disconnect(&mut self) -> (b: bool)
        ensures
            final(self).journal() == old(self).journal().push(Call::Disconnect { answer: b }),
    ;

    fn get_entities(&mut self, entity_type: &str) -> (r: Result<Vec<Entity>, Error>)
        ensures
            final(self).journal() == old(self).journal().push(
                Call::GetEntities { entity_type: entity_type@, answer: entities_answer(r) },
            ),
    ;

    fn get_entity(&mut self, entity_id: &str) -> (r: Result<Entity, Error>)
        ensures
            final(self).journal() == old(self).journal().push(
                Call::GetEntity { entity_id: entity_id@, answer: entity_answer(r) },
            ),
    ;

    fn get_notifications(&mut self) -> (r: Result<Vec<DatabaseNotification>, Error>)
        ensures
            final(self).journal() == old(self).journal().push(
                Call::GetNotifications { answer: notifications_answer(r) },
            ),
    ;

    /// Fills in the value, write time and writer of each requested field.
    fn read(&mut self, requests: &mut Vec<DatabaseField>) -> (r: Result<(), Error>)
        ensures
            final(self).journal() == old(self).journal().push(
                Call::Read {
                    requests: field_views(old(requests)@),
                    answer: unit_answer(r),
                    filled: field_views(final(requests)@),
                },
            ),
    ;

    fn register_notification(&mut self, config: &NotificationConfig) -> (r: Result<
        NotificationToken,
        Error,
    >)
        ensures
            final(self).journal() == old(self).journal().push(
                Call::Register { config: config@, answer: token_answer(r) },
            ),
    ;

    fn unregister_notification(&mut self, token: &NotificationToken) -> (r: Result<(), Error>)
        ensures
            final(self).journal() == old(self).journal().push(
                Call::Unregister { token: token@, answer: unit_answer(r) },
            ),
    ;

    fn write(&mut self, requests: &Vec<DatabaseField>) -> (r: Result<(), Error>)
        ensures
            final(self).journal() == old(self).journal().push(
                Call::Write { requests: field_views(requests@), answer: unit_answer(r) },
            ),
    ;
}

} // verus!
