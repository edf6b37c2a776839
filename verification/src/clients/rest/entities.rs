//! Entities and tokens on the wire.

use vstd::prelude::*;
use crate::clients::common::{entities_answer, entity_answer, entity_views, token_answer};
use crate::clients::rest::json::{
    documents,
    items_at,
    items_of,
    object_at,
    object_of,
    text_at,
    text_of,
    Json,
    JsonView,
};
use crate::clients::rest::lists::{decoded_list, lemma_list_step};
use crate::error::{Error, ErrorView};
use crate::schema::entity::{Entity, EntityView};
use crate::schema::notification::NotificationToken;

verus! {

/// The error for an entity without an identifier.
pub open spec fn bad_entity_id() -> ErrorView {
    ErrorView::ClientError("Invalid response from server: entity id is not valid"@)
}

/// The error for an entity without a type.
pub open spec fn bad_entity_type() -> ErrorView {
    ErrorView::ClientError("Invalid response from server: entity type is not valid"@)
}

/// The error for an entity without a name.
pub open spec fn bad_entity_name() -> ErrorView {
    ErrorView::ClientError("Invalid response from server: entity name is not valid"@)
}

/// The error for an answer without the entity asked for.
pub open spec fn no_entity() -> ErrorView {
    ErrorView::ClientError("Invalid response from server: Failed to extract entity"@)
}

/// The error for an answer without a list of entities.
pub open spec fn no_entities() -> ErrorView {
    ErrorView::ClientError("Invalid response from server: Failed to extract entities"@)
}

/// The error for a list of entities with an item that is no object.
pub open spec fn entity_not_object() -> ErrorView {
    ErrorView::ClientError("Invalid response from server: entity is not an object"@)
}

/// The error for an answer without a usable token.
pub open spec fn bad_token() -> ErrorView {
    ErrorView::ClientError("Invalid response from server: token is not valid"@)
}

/// The entity that a document stands for: it needs text under `id`, `type`
/// and `name`, and lacks them in that order.
pub open spec fn decoded_entity(e: JsonView) -> Result<EntityView, ErrorView> {
    match (text_at(e.member("id"@)), text_at(e.member("type"@)), text_at(e.member("name"@))) {
        (None, _, _) => Err(bad_entity_id()),
        (Some(_), None, _) => Err(bad_entity_type()),
        (Some(_), Some(_), None) => Err(bad_entity_name()),
        (Some(id), Some(entity_type), Some(name)) => Ok(EntityView { id, entity_type, name }),
    }
}

/// The entity that an item of a list of entities stands for: the item must
/// be an object.
pub open spec fn decoded_entity_item(item: JsonView) -> Result<EntityView, ErrorView> {
    if item is Object {
        decoded_entity(item)
    } else {
        Err(entity_not_object())
    }
}

/// What the answer to a request for one entity stands for: the entity under
/// `entity`, which must be an object.
pub open spec fn entity_reply(payload: JsonView) -> Result<EntityView, ErrorView> {
    match object_at(payload.member("entity"@)) {
        Some(e) => decoded_entity(e),
        None => Err(no_entity()),
    }
}

/// What the answer to a request for the entities of a type stands for: the
/// entities of the array under `entities`, or the error of the first item
/// that stands for none.
pub open spec fn entities_reply(payload: JsonView) -> Result<Seq<EntityView>, ErrorView> {
    match items_at(payload.member("entities"@)) {
        Some(items) => decoded_list(items, |item: JsonView| decoded_entity_item(item)),
        None => Err(no_entities()),
    }
}

/// What the answer to a request to register a filter stands for: the text
/// of the first item of the array under `tokens`.
pub open spec fn token_reply(payload: JsonView) -> Result<Seq<char>, ErrorView> {
    match items_at(payload.member("tokens"@)) {
        Some(items) => if items.len() > 0 && items[0] is Text {
            Ok(items[0]->Text_0)
        } else {
            Err(bad_token())
        },
        None => Err(bad_token()),
    }
}

/// Reads an entity from the wire.
pub fn decode_entity(e: &Json) -> (r: Result<Entity, Error>)
    ensures
        entity_answer(r) == decoded_entity(e@),
{
    let id = match text_of(e.member("id")) {
        Some(id) => id.clone(),
        None => {
            return Err(
                Error::from_client("Invalid response from server: entity id is not valid"),
            );
        },
    };
    let entity_type = match text_of(e.member("type")) {
        Some(t) => t.clone(),
        None => {
            return Err(
                Error::from_client("Invalid response from server: entity type is not valid"),
            );
        },
    };
    let name = match text_of(e.member("name")) {
        Some(n) => n.clone(),
        None => {
            return Err(
                Error::from_client("Invalid response from server: entity name is not valid"),
            );
        },
    };
    Ok(Entity { id, entity_type, name })
}

/// Reads the answer to a request for one entity.
pub fn read_entity_reply(payload: &Json) -> (r: Result<Entity, Error>)
    ensures
        entity_answer(r) == entity_reply(payload@),
{
    match object_of(payload.member("entity")) {
        Some(e) => decode_entity(e),
        None => Err(Error::from_client("Invalid response from server: Failed to extract entity")),
    }
}

/// Reads the answer to a request for the entities of one type.
pub fn read_entities_reply(payload: &Json) -> (r: Result<Vec<Entity>, Error>)
    ensures
        entities_answer(r) == entities_reply(payload@),
{
    let items = match items_of(payload.member("entities")) {
        Some(items) => items,
        None => {
            return Err(
                Error::from_client("Invalid response from server: Failed to extract entities"),
            );
        },
    };
    let ghost decoded = |item: JsonView| decoded_entity_item(item);
    let ghost all = documents(items@);
    let mut result: Vec<Entity> = Vec::new();
    let mut i: usize = 0;
    proof {
        assert(all.take(0) =~= Seq::empty());
        assert(entity_views(result@) =~= Seq::empty());
    }
    while i < items.len()
        invariant
            i <= items@.len(),
            all == documents(items@),
            items_at(payload@.member("entities"@)) == Some(all),
            decoded == |item: JsonView| decoded_entity_item(item),
            decoded_list(all.take(i as int), decoded) == Ok::<Seq<EntityView>, ErrorView>(
                entity_views(result@),
            ),
        decreases items@.len() - i,
    {
        let ghost done = entity_views(result@);
        proof {
            lemma_list_step(all, decoded, i as int, done);
        }
        if !items[i].is_object() {
            return Err(
                Error::from_client("Invalid response from server: entity is not an object"),
            );
        }
        match decode_entity(&items[i]) {
            Ok(entity) => {
                result.push(entity);
                assert(entity_views(result@) =~= done.push(entity@));
            },
            Err(e) => {
                return Err(e);
            },
        }
        i = i + 1;
    }
    assert(all.take(i as int) =~= all);
    Ok(result)
}

/// Reads the answer to a request to register a filter.
pub fn read_token_reply(payload: &Json) -> (r: Result<NotificationToken, Error>)
    ensures
        token_answer(r) == token_reply(payload@),
{
    match items_of(payload.member("tokens")) {
        Some(items) => {
            if items.len() > 0 {
                match items[0].as_text() {
                    Some(token) => {
                        return Ok(NotificationToken::from_string(token.clone()));
                    },
                    None => {},
                }
            }
            Err(Error::from_client("Invalid response from server: token is not valid"))
        },
        None => Err(Error::from_client("Invalid response from server: token is not valid")),
    }
}

} // verus!
