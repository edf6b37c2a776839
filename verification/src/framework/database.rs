//! The database as the framework sees it: a transport and the subscription
//! registry that belongs to it.

use vstd::prelude::*;
use crate::clients::common::{
    entities_answer,
    entity_answer,
    entity_views,
    unit_answer,
    Call,
    ClientTrait,
};
use crate::error::{Error, ErrorView};
use crate::framework::events::emitter::SlotToken;
use crate::framework::notification::{
    subscription,
    unknown_token,
    unknown_token_in_batch,
    inconsistent_registration,
    NotificationManager,
    NotificationReceiver,
    RegistryView,
};
use crate::schema::entity::{Entity, EntityView};
use crate::schema::field::DatabaseField;
use crate::schema::notification::{field_views, NotificationConfig, NotificationToken};

verus! {

/// The items of `all` that are marked in `kept`, in the order they have
/// there.
pub open spec fn kept_of<A>(all: Seq<A>, kept: Seq<bool>) -> Seq<A>
    decreases all.len(),
{
    if all.len() == 0 || kept.len() != all.len() {
        Seq::empty()
    } else {
        let before = kept_of(all.drop_last(), kept.drop_last());
        if kept.last() {
            before.push(all.last())
        } else {
            before
        }
    }
}

/// Whether the predicate's answer to the fields that the call read is `kept`.
pub open spec fn judged<F: Fn(&Vec<DatabaseField>) -> bool>(
    call: Call,
    predicate: F,
    kept: bool,
) -> bool {
    &&& call matches Call::Read { filled, .. }
    &&& exists|read: Vec<DatabaseField>|
        field_views(read@) == filled && #[trigger] predicate.ensures((&read,), kept)
}

/// Whether the call is the request to read the named fields of the entity,
/// none of them read before.
pub open spec fn reads_fields_of(call: Call, entity: EntityView, names: Seq<String>) -> bool {
    &&& call matches Call::Read { requests, .. }
    &&& requests.len() == names.len()
    &&& forall|j: int|
        0 <= j < requests.len() ==> (#[trigger] requests[j]).is_fresh(entity.id, names[j]@)
}

/// Whether the calls are those of a search among the entities of a type
/// that found `found`: first the request for the entities, then one request
/// per entity, in order, to read the named fields; and `found` holds the
/// entities whose fields, as read, the predicate accepted.
pub open spec fn searched<F: Fn(&Vec<DatabaseField>) -> bool>(
    calls: Seq<Call>,
    entity_type: Seq<char>,
    names: Seq<String>,
    predicate: F,
    found: Seq<EntityView>,
) -> bool {
    &&& calls.len() > 0
    &&& calls[0] matches Call::GetEntities { entity_type: asked, answer: Ok(all) }
    &&& asked == entity_type
    &&& calls.len() == 1 + all.len()
    &&& forall|k: int| 0 <= k < all.len() ==> reads_fields_of(#[trigger] calls[1 + k], all[k], names)
    &&& exists|kept: Seq<bool>|
        {
            &&& kept.len() == all.len()
            &&& forall|k: int|
                0 <= k < all.len() ==> judged(#[trigger] calls[1 + k], predicate, kept[k])
            &&& found == #[trigger] kept_of(all, kept)
        }
}

/// Whether the calls are those of a search that a request of the transport
/// ended with an error: the request for the entities, or the request to read
/// the fields of one of them.
pub open spec fn search_failed(
    calls: Seq<Call>,
    entity_type: Seq<char>,
    names: Seq<String>,
    error: ErrorView,
) -> bool {
    &&& calls.len() > 0
    &&& calls[0] matches Call::GetEntities { entity_type: asked, answer }
    &&& asked == entity_type
    &&& match answer {
        Err(e) => calls.len() == 1 && e == error,
        Ok(all) => {
            &&& 1 < calls.len() <= 1 + all.len()
            &&& forall|k: int|
                0 <= k < calls.len() - 1 ==> reads_fields_of(#[trigger] calls[1 + k], all[k], names)
            &&& calls.last() matches Call::Read { answer: Err(e), .. }
            &&& e == error
        },
    }
}

/// A transport, and the registry of the subscriptions made through it.
pub struct Database<C: ClientTrait> {
    pub client: C,
    pub notification_manager: NotificationManager,
}

impl<C: ClientTrait> Database<C> {
    /// A database on `client`, without a subscription.
    pub fn new(client: C) -> (d: Self)
        ensures
            d.client == client,
            d.notification_manager@ == RegistryView::empty(),
    {
        Database { client, notification_manager: NotificationManager::new() }
    }

    /// Asks the transport to connect.
    pub fn connect(&mut self) -> (r: Result<(), Error>)
        ensures
            final(self).client.journal() == old(self).client.journal().push(
                Call::Connect { answer: unit_answer(r) },
            ),
            final(self).notification_manager == old(self).notification_manager,
    {
        self.client.connect()
    }

    /// Whether the transport holds itself connected.
    pub fn connected(&self) -> (b: bool)
        ensures
            b == self.client.is_connected(),
    {
        self.client.connected()
    }

    /// Asks the transport to disconnect.
    pub fn disconnect(&mut self) -> (b: bool)
        ensures
            final(self).client.journal() == old(self).client.journal().push(
                Call::Disconnect { answer: b },
            ),
            final(self).notification_manager == old(self).notification_manager,
    {
        self.client.disconnect()
    }

    /// Asks the transport for one entity.
    pub fn get_entity(&mut self, entity_id: &str) -> (r: Result<Entity, Error>)
        ensures
            final(self).client.journal() == old(self).client.journal().push(
                Call::GetEntity { entity_id: entity_id@, answer: entity_answer(r) },
            ),
            final(self).notification_manager == old(self).notification_manager,
    {
        self.client.get_entity(entity_id)
    }

    /// Asks the transport for the entities of one type.
    pub fn get_entities(&mut self, entity_type: &str) -> (r: Result<Vec<Entity>, Error>)
        ensures
            final(self).client.journal() == old(self).client.journal().push(
                Call::GetEntities { entity_type: entity_type@, answer: entities_answer(r) },
            ),
            final(self).notification_manager == old(self).notification_manager,
    {
        self.client.get_entities(entity_type)
    }

    /// The fresh fields of one entity with the given names, to be read.
    pub fn requests_for(entity: &Entity, names: &Vec<String>) -> (requests: Vec<DatabaseField>)
        ensures
            requests@.len() == names@.len(),
            forall|j: int|
                0 <= j < requests@.len() ==> (#[trigger] field_views(requests@)[j]).is_fresh(
                    entity@.id,
                    names@[j]@,
                ),
    {
        let mut requests: Vec<DatabaseField> = Vec::new();
        let mut j: usize = 0;
        while j < names.len()
            invariant
                j <= names@.len(),
                requests@.len() == j,
                forall|k: int|
                    0 <= k < j ==> (#[trigger] field_views(requests@)[k]).is_fresh(
                        entity@.id,
                        names@[k]@,
                    ),
            decreases names@.len() - j,
        {
            let ghost done = field_views(requests@);
            let field = entity.field(names[j].as_str());
            requests.push(field);
            assert(field_views(requests@) =~= done.push(field@));
            j = j + 1;
        }
        requests
    }

    /// Searches the entities of a type for those whose fields, as read,
    /// satisfy the predicate.
    ///
    /// Asks the transport for the entities of the type, and then for each of
    /// them, in order, to read the named fields. The first request that fails
    /// ends the search with its error. The predicate is given the fields as
    /// read, in the order of `fields`.
    pub fn find<F: Fn(&Vec<DatabaseField>) -> bool>(
        &mut self,
        entity_type: &str,
        fields: &Vec<String>,
        predicate: F,
    ) -> (r: Result<Vec<Entity>, Error>)
        requires
            forall|read: &Vec<DatabaseField>| predicate.requires((read,)),
        ensures
            final(self).notification_manager == old(self).notification_manager,
            old(self).client.journal().len() <= final(self).client.journal().len(),
            final(self).client.journal().take(old(self).client.journal().len() as int) == old(
                self,
            ).client.journal(),
            match r {
                Ok(found) => searched(
                    final(self).client.journal().skip(old(self).client.journal().len() as int),
                    entity_type@,
                    fields@,
                    predicate,
                    entity_views(found@),
                ),
                Err(e) => search_failed(
                    final(self).client.journal().skip(old(self).client.journal().len() as int),
                    entity_type@,
                    fields@,
                    e@,
                ),
            },
    {
        let ghost before = self.client.journal();
        let entities = match self.client.get_entities(entity_type) {
            Ok(entities) => entities,
            Err(e) => {
                proof {
                    let calls = self.client.journal().skip(before.len() as int);
                    assert(self.client.journal().take(before.len() as int) =~= before);
                    assert(calls.len() == 1);
                    assert(calls[0] == self.client.journal()[before.len() as int]);
                }
                return Err(e);
            },
        };
        let ghost all = entity_views(entities@);
        let mut result: Vec<Entity> = Vec::new();
        let ghost mut kept: Seq<bool> = Seq::empty();
        let mut i: usize = 0;
        proof {
            assert(all.take(0) =~= Seq::empty());
        }
        while i < entities.len()
            invariant
                i <= entities@.len(),
                all == entity_views(entities@),
                self.notification_manager == old(self).notification_manager,
                before == old(self).client.journal(),
                self.client.journal().len() == before.len() + 1 + i,
                self.client.journal().take(before.len() as int) == before,
                self.client.journal()[before.len() as int] == (Call::GetEntities {
                    entity_type: entity_type@,
                    answer: Ok(all),
                }),
                forall|k: int|
                    0 <= k < i ==> reads_fields_of(
                        #[trigger] self.client.journal()[before.len() + 1 + k],
                        all[k],
                        fields@,
                    ),
                kept.len() == i,
                forall|k: int|
                    0 <= k < i ==> judged(
                        #[trigger] self.client.journal()[before.len() + 1 + k],
                        predicate,
                        kept[k],
                    ),
                entity_views(result@) == kept_of(all.take(i as int), kept),
                forall|read: &Vec<DatabaseField>| predicate.requires((read,)),
            decreases entities@.len() - i,
        {
            let ghost journal = self.client.journal();
            let mut requests = Self::requests_for(&entities[i], fields);
            let answer = self.client.read(&mut requests);
            proof {
                let now = self.client.journal();
                assert(now.take(before.len() as int) =~= before);
                assert(now[before.len() as int] == journal[before.len() as int]);
                assert forall|k: int| 0 <= k < i + 1 implies reads_fields_of(
                    #[trigger] now[before.len() + 1 + k],
                    all[k],
                    fields@,
                ) by {
                    if k < i {
                        assert(now[before.len() + 1 + k] == journal[before.len() + 1 + k]);
                    } else {
                        assert(all[k] == entities@[i as int]@);
                    }
                }
                assert forall|k: int| 0 <= k < i implies judged(
                    #[trigger] now[before.len() + 1 + k],
                    predicate,
                    kept[k],
                ) by {
                    assert(now[before.len() + 1 + k] == journal[before.len() + 1 + k]);
                }
            }
            match answer {
                Ok(_) => {},
                Err(e) => {
                    proof {
                        let now = self.client.journal();
                        let calls = now.skip(before.len() as int);
                        assert(calls[0] == now[before.len() as int]);
                        assert forall|k: int| 0 <= k < calls.len() - 1 implies reads_fields_of(
                            #[trigger] calls[1 + k],
                            all[k],
                            fields@,
                        ) by {
                            assert(calls[1 + k] == now[before.len() + 1 + k]);
                        }
                        assert(calls.last() == now.last());
                    }
                    return Err(e);
                },
            }
            let keep = predicate(&requests);
            let ghost found = entity_views(result@);
            if keep {
                result.push(entities[i].duplicate());
            }
            proof {
                let now = self.client.journal();
                let old_kept = kept;
                kept = kept.push(keep);
                assert(judged(now[before.len() + 1 + i], predicate, keep)) by {
                    assert(field_views(requests@) == now[before.len() + 1 + i]->Read_filled);
                    assert(predicate.ensures((&requests,), keep));
                }
                assert forall|k: int| 0 <= k < i + 1 implies judged(
                    #[trigger] now[before.len() + 1 + k],
                    predicate,
                    kept[k],
                ) by {
                    if k < i {
                        assert(kept[k] == old_kept[k]);
                    }
                }
                let longer = all.take(i + 1);
                assert(longer.drop_last() =~= all.take(i as int));
                assert(kept.drop_last() =~= old_kept);
                assert(longer.last() == entities@[i as int]@);
                if keep {
                    assert(entity_views(result@) =~= found.push(entities@[i as int]@));
                } else {
                    assert(entity_views(result@) =~= found);
                }
            }
            i = i + 1;
        }
        proof {
            let now = self.client.journal();
            let calls = now.skip(before.len() as int);
            assert(calls[0] == now[before.len() as int]);
            assert(all.take(i as int) =~= all);
            assert forall|k: int| 0 <= k < all.len() implies reads_fields_of(
                #[trigger] calls[1 + k],
                all[k],
                fields@,
            ) by {
                assert(calls[1 + k] == now[before.len() + 1 + k]);
            }
            assert forall|k: int| 0 <= k < all.len() implies judged(
                #[trigger] calls[1 + k],
                predicate,
                kept[k],
            ) by {
                assert(calls[1 + k] == now[before.len() + 1 + k]);
            }
            assert(entity_views(result@) == kept_of(all, kept));
        }
        Ok(result)
    }

    /// Asks the transport to fill in the requested fields.
    pub fn read(&mut self, requests: &mut Vec<DatabaseField>) -> (r: Result<(), Error>)
        ensures
            final(self).client.journal() == old(self).client.journal().push(
                Call::Read {
                    requests: field_views(old(requests)@),
                    answer: unit_answer(r),
                    filled: field_views(final(requests)@),
                },
            ),
            final(self).notification_manager == old(self).notification_manager,
    {
        self.client.read(requests)
    }

    /// Asks the transport to write the given fields.
    pub fn write(&mut self, requests: &Vec<DatabaseField>) -> (r: Result<(), Error>)
        ensures
            final(self).client.journal() == old(self).client.journal().push(
                Call::Write { requests: field_views(requests@), answer: unit_answer(r) },
            ),
            final(self).notification_manager == old(self).notification_manager,
    {
        self.client.write(requests)
    }

    /// Drops every subscription, without a word to the transport.
    pub fn clear_notifications(&mut self)
        ensures
            final(self).notification_manager@ == old(self).notification_manager@.cleared(),
            final(self).client == old(self).client,
    {
        self.notification_manager.clear();
    }

    /// Subscribes to a filter: see [`NotificationManager::register`].
    pub fn register_notification(&mut self, config: &NotificationConfig) -> (r: Result<
        NotificationReceiver,
        Error,
    >)
        ensures
            final(self).notification_manager@.consistent(),
            old(self).notification_manager@.tokens.contains_key(config@) ==> {
                let registry = old(self).notification_manager@;
                &&& final(self).client == old(self).client
                &&& if registry.exhausted() {
                    &&& r matches Err(e)
                    &&& e@ == inconsistent_registration()
                    &&& final(self).notification_manager@ == registry
                } else {
                    &&& subscription(r) == Ok::<(Seq<char>, SlotToken), ErrorView>(
                        (registry.tokens[config@], registry.next_slot()),
                    )
                    &&& final(self).notification_manager@ == registry.attach(config@)
                }
            },
            !old(self).notification_manager@.tokens.contains_key(config@) ==> {
                &&& final(self).client.journal().len() == old(self).client.journal().len() + 1
                &&& final(self).client.journal().drop_last() == old(self).client.journal()
                &&& final(self).client.journal().last() matches Call::Register {
                    config: asked,
                    answer,
                }
                &&& asked == config@
                &&& old(self).notification_manager@.registered(
                    config@,
                    answer,
                    subscription(r),
                    final(self).notification_manager@,
                )
            },
    {
        self.notification_manager.register(&mut self.client, config)
    }

    /// Ends the subscription of a token: see
    /// [`NotificationManager::unregister`].
    pub fn unregister_notification(&mut self, token: &NotificationToken) -> (r: Result<(), Error>)
        ensures
            final(self).notification_manager@.consistent(),
            final(self).client.journal() == old(self).client.journal() + old(
                self,
            ).notification_manager@.unregister_requests(token@, unit_answer(r)),
            !old(self).notification_manager@.buses.contains_key(token@) ==> {
                &&& final(self).client == old(self).client
                &&& r matches Err(e)
                &&& e@ == unknown_token()
                &&& final(self).notification_manager@ == old(self).notification_manager@
            },
            old(self).notification_manager@.buses.contains_key(token@) ==> {
                &&& r is Ok ==> final(self).notification_manager@ == old(
                    self,
                ).notification_manager@.forget(token@)
                &&& r is Err ==> final(self).notification_manager@ == old(
                    self,
                ).notification_manager@
            },
    {
        self.notification_manager.unregister(&mut self.client, token)
    }

    /// Polls the transport and hands out what it has: see
    /// [`NotificationManager::process_notifications`].
    pub fn process_notifications(&mut self) -> (r: Result<(), Error>)
        ensures
            final(self).notification_manager@.consistent(),
            final(self).client.journal().len() == old(self).client.journal().len() + 1,
            final(self).client.journal().drop_last() == old(self).client.journal(),
            match final(self).client.journal().last() {
                Call::GetNotifications { answer: Ok(batch) } => {
                    &&& final(self).notification_manager@ == old(
                        self,
                    ).notification_manager@.deliver_all(batch)
                    &&& r is Ok <==> old(self).notification_manager@.knows_all(batch)
                    &&& r matches Err(e) ==> e@ == unknown_token_in_batch()
                },
                Call::GetNotifications { answer: Err(error) } => {
                    &&& r matches Err(e)
                    &&& e@ == error
                    &&& final(self).notification_manager@ == old(self).notification_manager@
                },
                _ => false,
            },
    {
        self.notification_manager.process_notifications(&mut self.client)
    }
}

} // verus!
