//! The answer to a request to read fields.
//!
//! The answer holds one item per field. Each is taken into the field it
//! answers for, in order, up to the first that cannot be.

use vstd::prelude::*;
use crate::clients::common::unit_answer;
use crate::clients::rest::json::{
    documents,
    items_at,
    items_of,
    member_at,
    member_of,
    object_at,
    object_of,
    text_at,
    text_of,
    Json,
    JsonView,
};
use crate::clients::rest::values::{decode_value, decoded_value};
use crate::error::{Error, ErrorView};
use crate::schema::field::{DatabaseField, FieldView};
use crate::schema::notification::field_views;
use crate::schema::time::{rfc3339_instant, Timestamp};
use crate::schema::value::DatabaseValue;

verus! {

/// The error for an answer without a list of fields.
pub open spec fn no_response() -> ErrorView {
    ErrorView::ClientError("Invalid response from server: response is not valid"@)
}

/// The error for an item of the answer that is no object.
pub open spec fn item_not_object() -> ErrorView {
    ErrorView::ClientError("Invalid response from server: response is not an object"@)
}

/// The error for an item without the identifier of an entity.
pub open spec fn bad_item_entity() -> ErrorView {
    ErrorView::ClientError("Invalid response from server: entity id is not valid"@)
}

/// The error for an item without the name of a field.
pub open spec fn bad_item_field() -> ErrorView {
    ErrorView::ClientError("Invalid response from server: field name is not valid"@)
}

/// The error for an item that answers for a field that was not asked for.
pub open spec fn field_not_found() -> ErrorView {
    ErrorView::ClientError("Invalid response from server: Field not found"@)
}

/// The error for an item without a value.
pub open spec fn bad_item_value() -> ErrorView {
    ErrorView::ClientError("Invalid response from server: value is not valid"@)
}

/// The error for an item without a write time that is RFC 3339 text.
pub open spec fn bad_item_time() -> ErrorView {
    ErrorView::ClientError("Invalid response from server: write time is not valid"@)
}

/// The error for an item without a writer.
pub open spec fn bad_item_writer() -> ErrorView {
    ErrorView::ClientError("Invalid response from server: writer id is not valid"@)
}

/// The place of the first of the fields that belongs to the entity and has
/// the name, if there is one.
pub open spec fn first_match(fields: Seq<FieldView>, entity_id: Seq<char>, name: Seq<char>) -> Option<
    int,
>
    decreases fields.len(),
{
    if fields.len() == 0 {
        None
    } else {
        match first_match(fields.drop_last(), entity_id, name) {
            Some(i) => Some(i),
            None => if fields.last().entity_id == entity_id && fields.last().name == name {
                Some(fields.len() - 1)
            } else {
                None
            },
        }
    }
}

/// The text under `raw` of the object under the key.
pub open spec fn raw_text(item: JsonView, key: Seq<char>) -> Option<Seq<char>> {
    text_at(member_at(object_at(item.member(key)), "raw"@))
}

/// The fields after one item of the answer was taken in, and whether it
/// could be, given the instant that the item's write time parses to.
///
/// The item must be an object that names, under `id` and `field`, an entity
/// and a field that were asked for, and hold an object under `value` and
/// text under `raw` in the objects under `writeTime` and `writerId`. The
/// value is filled in as soon as it is read; the write time and the writer
/// follow when the write time is read too.
pub open spec fn item_taken(fields: Seq<FieldView>, item: JsonView, written: Option<Timestamp>) -> (
    Seq<FieldView>,
    Result<(), ErrorView>,
) {
    if !(item is Object) {
        (fields, Err(item_not_object()))
    } else {
        match (text_at(item.member("id"@)), text_at(item.member("field"@))) {
            (None, _) => (fields, Err(bad_item_entity())),
            (Some(_), None) => (fields, Err(bad_item_field())),
            (Some(id), Some(name)) => match first_match(fields, id, name) {
                None => (fields, Err(field_not_found())),
                Some(at) => match (
                    object_at(item.member("value"@)),
                    raw_text(item, "writeTime"@),
                    raw_text(item, "writerId"@),
                ) {
                    (None, _, _) => (fields, Err(bad_item_value())),
                    (Some(_), None, _) => (fields, Err(bad_item_time())),
                    (Some(_), Some(_), None) => (fields, Err(bad_item_writer())),
                    (Some(v), Some(_), Some(writer)) => match decoded_value(v) {
                        Err(e) => (fields, Err(e)),
                        Ok(value) => {
                            let valued = fields.update(at, FieldView { value, ..fields[at] });
                            match written {
                                None => (valued, Err(bad_item_time())),
                                Some(time) => (
                                    valued.update(
                                        at,
                                        FieldView {
                                            write_time: time,
                                            writer_id: writer,
                                            ..valued[at]
                                        },
                                    ),
                                    Ok(()),
                                ),
                            }
                        },
                    },
                },
            },
        }
    }
}

/// The instant that the write time of an item parses to.
pub open spec fn item_time(item: JsonView) -> Option<Timestamp> {
    match raw_text(item, "writeTime"@) {
        Some(text) => rfc3339_instant(text),
        None => None,
    }
}

/// The fields after the items of the answer were taken in, in order, up to
/// the first that could not be; and whether all could.
pub open spec fn items_taken(fields: Seq<FieldView>, items: Seq<JsonView>) -> (
    Seq<FieldView>,
    Result<(), ErrorView>,
)
    decreases items.len(),
{
    if items.len() == 0 {
        (fields, Ok(()))
    } else {
        let before = items_taken(fields, items.drop_last());
        match before.1 {
            Err(_) => before,
            Ok(_) => item_taken(before.0, items.last(), item_time(items.last())),
        }
    }
}

/// An item among the first that could not be taken in ends the taking in.
proof fn lemma_items_error(fields: Seq<FieldView>, items: Seq<JsonView>, n: int)
    requires
        0 <= n <= items.len(),
        items_taken(fields, items.take(n)).1 is Err,
    ensures
        items_taken(fields, items) == items_taken(fields, items.take(n)),
    decreases items.len() - n,
{
    if n == items.len() {
        assert(items.take(n) =~= items);
    } else {
        assert(items.take(n + 1).drop_last() =~= items.take(n));
        lemma_items_error(fields, items, n + 1);
    }
}

/// Finds the first of the fields that belongs to the entity and has the name.
fn find_field(fields: &Vec<DatabaseField>, entity_id: &String, name: &String) -> (r: Option<usize>)
    ensures
        match r {
            Some(i) => first_match(field_views(fields@), entity_id@, name@) == Some(i as int) && i
                < fields@.len(),
            None => first_match(field_views(fields@), entity_id@, name@) is None,
        },
{
    let ghost views = field_views(fields@);
    let mut i: usize = 0;
    assert(views.take(0) =~= Seq::empty());
    while i < fields.len()
        invariant
            i <= fields@.len(),
            views == field_views(fields@),
            first_match(views.take(i as int), entity_id@, name@) is None,
        decreases fields@.len() - i,
    {
        proof {
            assert(views.take(i + 1).drop_last() =~= views.take(i as int));
            assert(views.take(i + 1).last() == fields@[i as int]@);
        }
        if fields[i].entity_id() == *entity_id && fields[i].name() == *name {
            proof {
                lemma_match_stays(views, entity_id@, name@, i + 1);
            }
            return Some(i);
        }
        i = i + 1;
    }
    assert(views.take(i as int) =~= views);
    None
}

/// A match among the first fields is the first match of all.
proof fn lemma_match_stays(fields: Seq<FieldView>, entity_id: Seq<char>, name: Seq<char>, n: int)
    requires
        0 <= n <= fields.len(),
        first_match(fields.take(n), entity_id, name) is Some,
    ensures
        first_match(fields, entity_id, name) == first_match(fields.take(n), entity_id, name),
    decreases fields.len() - n,
{
    if n == fields.len() {
        assert(fields.take(n) =~= fields);
    } else {
        assert(fields.take(n + 1).drop_last() =~= fields.take(n));
        lemma_match_stays(fields, entity_id, name, n + 1);
    }
}

/// The text under `raw` of the object under the key.
fn raw_text_of<'a>(item: &'a Json, key: &str) -> (r: Option<&'a String>)
    ensures
        match r {
            Some(s) => raw_text(item@, key@) == Some(s@),
            None => raw_text(item@, key@) is None,
        },
{
    text_of(member_of(object_of(item.member(key)), "raw"))
}

/// Takes one item of the answer to a request to read into the fields that
/// were asked for, given the outcome of parsing its write time.
pub fn take_item(requests: &mut Vec<DatabaseField>, item: &Json, written: Option<Timestamp>) -> (r:
    Result<(), Error>)
    ensures
        (field_views(final(requests)@), unit_answer(r)) == item_taken(
            field_views(old(requests)@),
            item@,
            written,
        ),
{
    let ghost before = field_views(requests@);
    if !item.is_object() {
        return Err(Error::from_client("Invalid response from server: response is not an object"));
    }
    let id = match text_of(item.member("id")) {
        Some(id) => id,
        None => {
            return Err(
                Error::from_client("Invalid response from server: entity id is not valid"),
            );
        },
    };
    let name = match text_of(item.member("field")) {
        Some(name) => name,
        None => {
            return Err(
                Error::from_client("Invalid response from server: field name is not valid"),
            );
        },
    };
    let at = match find_field(requests, id, name) {
        Some(at) => at,
        None => {
            return Err(Error::from_client("Invalid response from server: Field not found"));
        },
    };
    let wire_value = match object_of(item.member("value")) {
        Some(v) => v,
        None => {
            return Err(Error::from_client("Invalid response from server: value is not valid"));
        },
    };
    if raw_text_of(item, "writeTime").is_none() {
        return Err(Error::from_client("Invalid response from server: write time is not valid"));
    }
    let writer = match raw_text_of(item, "writerId") {
        Some(w) => w,
        None => {
            return Err(
                Error::from_client("Invalid response from server: writer id is not valid"),
            );
        },
    };
    let value = match decode_value(wire_value) {
        Ok(value) => value,
        Err(e) => {
            return Err(e);
        },
    };
    requests[at].update_value(DatabaseValue::new(value));
    let ghost valued = field_views(requests@);
    proof {
        assert(valued =~= before.update(
            at as int,
            FieldView { value: value@, ..before[at as int] },
        ));
    }
    let time = match written {
        Some(time) => time,
        None => {
            return Err(
                Error::from_client("Invalid response from server: write time is not valid"),
            );
        },
    };
    requests[at].update_write_time(time);
    requests[at].update_writer_id(writer.as_str());
    proof {
        assert(field_views(requests@) =~= valued.update(
            at as int,
            FieldView { write_time: time, writer_id: writer@, ..valued[at as int] },
        ));
    }
    Ok(())
}

/// What the answer to a request to read makes of the fields that were asked
/// for, and whether all of it could be taken in: the items of the array
/// under `response` are taken in, in order, up to the first that cannot be.
pub open spec fn read_reply(fields: Seq<FieldView>, payload: JsonView) -> (
    Seq<FieldView>,
    Result<(), ErrorView>,
) {
    match items_at(payload.member("response"@)) {
        Some(items) => items_taken(fields, items),
        None => (fields, Err(no_response())),
    }
}

/// Takes the answer to a request to read into the fields that were asked
/// for.
pub fn take_read_reply(requests: &mut Vec<DatabaseField>, payload: &Json) -> (r: Result<(), Error>)
    ensures
        (field_views(final(requests)@), unit_answer(r)) == read_reply(
            field_views(old(requests)@),
            payload@,
        ),
{
    let items = match items_of(payload.member("response")) {
        Some(items) => items,
        None => {
            return Err(Error::from_client("Invalid response from server: response is not valid"));
        },
    };
    let ghost start = field_views(requests@);
    let ghost all = documents(items@);
    let mut i: usize = 0;
    assert(all.take(0) =~= Seq::empty());
    while i < items.len()
        invariant
            i <= items@.len(),
            all == documents(items@),
            items_at(payload@.member("response"@)) == Some(all),
            start == field_views(old(requests)@),
            items_taken(start, all.take(i as int)) == (
                field_views(requests@),
                Ok::<(), ErrorView>(()),
            ),
        decreases items@.len() - i,
    {
        proof {
            assert(all.take(i + 1).drop_last() =~= all.take(i as int));
            assert(all.take(i + 1).last() == items@[i as int]@);
        }
        let written = match raw_text_of(&items[i], "writeTime") {
            Some(text) => Timestamp::parse_rfc3339(text.as_str()),
            None => None,
        };
        match take_item(requests, &items[i], written) {
            Ok(_) => {},
            Err(e) => {
                proof {
                    lemma_items_error(start, all, i + 1);
                }
                return Err(e);
            },
        }
        i = i + 1;
    }
    assert(all.take(i as int) =~= all);
    Ok(())
}

} // verus!
