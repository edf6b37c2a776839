//! Fields and notifications on the wire.

use vstd::prelude::*;
use crate::clients::common::{notification_views, notifications_answer};
use crate::clients::rest::json::{
    content,
    documents,
    items_at,
    items_of,
    member_at,
    member_of,
    object_at,
    object_of,
    text_at,
    text_of,
    Json,
    JsonView,
};
use crate::clients::rest::lists::{decoded_list, lemma_list_step};
use crate::clients::rest::values::{decode_value, decoded_value};
use crate::error::{Error, ErrorView};
use crate::schema::field::{DatabaseField, FieldView, RawField};
use crate::schema::notification::{field_views, DatabaseNotification, NotificationView};
use crate::schema::time::{rfc3339_instant, Timestamp};
use crate::schema::value::{DatabaseValue, RawValue, ValueView};

verus! {

/// The error for a field without the identifier of its entity.
pub open spec fn bad_field_entity() -> ErrorView {
    ErrorView::ClientError("Invalid response from server: entity ID is not valid"@)
}

/// The error for a field without a name.
pub open spec fn bad_field_name() -> ErrorView {
    ErrorView::ClientError("Invalid response from server: name is not valid"@)
}

/// The error for a field without a write time that is RFC 3339 text.
pub open spec fn bad_field_time() -> ErrorView {
    ErrorView::ClientError("Invalid response from server: writeTime is not valid"@)
}

/// The error for a notification without a token.
pub open spec fn bad_notification_token() -> ErrorView {
    ErrorView::ClientError("Invalid response from server: notification token is not valid"@)
}

/// The error for a notification without a list of context fields.
pub open spec fn bad_notification_context() -> ErrorView {
    ErrorView::ClientError("Invalid response from server: notification context is not valid"@)
}

/// The error for an answer without a list of notifications.
pub open spec fn no_notifications() -> ErrorView {
    ErrorView::ClientError("Invalid response from server: notifications is not valid"@)
}

/// The value of a field on the wire: what the object under `value` stands
/// for, and unspecified where there is none or it stands for nothing.
pub open spec fn field_value(f: Option<JsonView>) -> ValueView {
    match object_at(member_at(f, "value"@)) {
        Some(v) => match decoded_value(v) {
            Ok(value) => value,
            Err(_) => ValueView::Unspecified,
        },
        None => ValueView::Unspecified,
    }
}

/// The writer of a field on the wire: the text under `writerId`, and the
/// empty text where there is none.
pub open spec fn field_writer(f: Option<JsonView>) -> Seq<char> {
    match text_at(member_at(f, "writerId"@)) {
        Some(w) => w,
        None => Seq::empty(),
    }
}

/// The instant that the write time of a field on the wire parses to.
pub open spec fn field_time(f: Option<JsonView>) -> Option<Timestamp> {
    match text_at(member_at(f, "writeTime"@)) {
        Some(text) => rfc3339_instant(text),
        None => None,
    }
}

/// The field that a document stands for, given the instant that its write
/// time parses to. It needs text under `id`, `name` and `writeTime`, and
/// lacks them in that order.
pub open spec fn assembled_field(f: Option<JsonView>, written: Option<Timestamp>) -> Result<
    FieldView,
    ErrorView,
> {
    match (
        text_at(member_at(f, "id"@)),
        text_at(member_at(f, "name"@)),
        text_at(member_at(f, "writeTime"@)),
        written,
    ) {
        (None, _, _, _) => Err(bad_field_entity()),
        (Some(_), None, _, _) => Err(bad_field_name()),
        (Some(_), Some(_), None, _) => Err(bad_field_time()),
        (Some(_), Some(_), Some(_), None) => Err(bad_field_time()),
        (Some(entity_id), Some(name), Some(_), Some(at)) => Ok(
            FieldView {
                entity_id,
                name,
                value: field_value(f),
                write_time: at,
                writer_id: field_writer(f),
            },
        ),
    }
}

/// The field that a document stands for.
pub open spec fn decoded_field(f: Option<JsonView>) -> Result<FieldView, ErrorView> {
    assembled_field(f, field_time(f))
}

/// The mathematical content of a decoded field or its error.
pub open spec fn field_answer(r: Result<DatabaseField, Error>) -> Result<FieldView, ErrorView> {
    match r {
        Ok(f) => Ok(f@),
        Err(e) => Err(e@),
    }
}

/// Puts a field together from its wire form and the outcome of parsing its
/// write time.
pub fn assemble_field(f: Option<&Json>, written: Option<Timestamp>) -> (r: Result<
    DatabaseField,
    Error,
>)
    ensures
        field_answer(r) == assembled_field(content(f), written),
{
    let entity_id = match text_of(member_of(f, "id")) {
        Some(id) => id.clone(),
        None => {
            return Err(
                Error::from_client("Invalid response from server: entity ID is not valid"),
            );
        },
    };
    let name = match text_of(member_of(f, "name")) {
        Some(name) => name.clone(),
        None => {
            return Err(Error::from_client("Invalid response from server: name is not valid"));
        },
    };
    if text_of(member_of(f, "writeTime")).is_none() {
        return Err(Error::from_client("Invalid response from server: writeTime is not valid"));
    }
    let write_time = match written {
        Some(at) => at,
        None => {
            return Err(
                Error::from_client("Invalid response from server: writeTime is not valid"),
            );
        },
    };
    let writer_id = match text_of(member_of(f, "writerId")) {
        Some(w) => w.clone(),
        None => String::new(),
    };
    let value = match object_of(member_of(f, "value")) {
        Some(v) => match decode_value(v) {
            Ok(value) => value,
            Err(_) => RawValue::Unspecified,
        },
        None => RawValue::Unspecified,
    };
    Ok(
        DatabaseField::new(
            RawField { entity_id, name, value: DatabaseValue::new(value), write_time, writer_id },
        ),
    )
}

/// Reads a field from the wire.
pub fn decode_field(f: Option<&Json>) -> (r: Result<DatabaseField, Error>)
    ensures
        field_answer(r) == decoded_field(content(f)),
{
    let written = match text_of(member_of(f, "writeTime")) {
        Some(text) => Timestamp::parse_rfc3339(text.as_str()),
        None => None,
    };
    assemble_field(f, written)
}

/// The fields that a list of documents stands for, or the error of the
/// first that stands for none.
pub open spec fn decoded_fields(items: Seq<JsonView>) -> Result<Seq<FieldView>, ErrorView> {
    decoded_list(items, |f: JsonView| decoded_field(Some(f)))
}

/// Reads a list of fields from the wire.
pub fn decode_fields(items: &Vec<Json>) -> (r: Result<Vec<DatabaseField>, Error>)
    ensures
        match r {
            Ok(fields) => decoded_fields(documents(items@)) == Ok::<Seq<FieldView>, ErrorView>(
                field_views(fields@),
            ),
            Err(e) => decoded_fields(documents(items@)) == Err::<Seq<FieldView>, ErrorView>(e@),
        },
{
    let ghost decoded = |f: JsonView| decoded_field(Some(f));
    let ghost all = documents(items@);
    let mut result: Vec<DatabaseField> = Vec::new();
    let mut i: usize = 0;
    proof {
        assert(all.take(0) =~= Seq::empty());
        assert(field_views(result@) =~= Seq::empty());
    }
    while i < items.len()
        invariant
            i <= items@.len(),
            all == documents(items@),
            decoded == |f: JsonView| decoded_field(Some(f)),
            decoded_list(all.take(i as int), decoded) == Ok::<Seq<FieldView>, ErrorView>(
                field_views(result@),
            ),
        decreases items@.len() - i,
    {
        let ghost done = field_views(result@);
        proof {
            lemma_list_step(all, decoded, i as int, done);
        }
        match decode_field(Some(&items[i])) {
            Ok(field) => {
                result.push(field);
                assert(field_views(result@) =~= done.push(field@));
            },
            Err(e) => {
                return Err(e);
            },
        }
        i = i + 1;
    }
    assert(all.take(i as int) =~= all);
    Ok(result)
}

/// The notification that a document stands for. It needs text under `token`,
/// fields under `current` and `previous` and an array of fields under
/// `context`, and lacks them in that order.
pub open spec fn decoded_notification(n: JsonView) -> Result<NotificationView, ErrorView> {
    match text_at(n.member("token"@)) {
        None => Err(bad_notification_token()),
        Some(token) => match decoded_field(n.member("current"@)) {
            Err(e) => Err(e),
            Ok(current) => match decoded_field(n.member("previous"@)) {
                Err(e) => Err(e),
                Ok(previous) => match items_at(n.member("context"@)) {
                    None => Err(bad_notification_context()),
                    Some(items) => match decoded_fields(items) {
                        Err(e) => Err(e),
                        Ok(context) => Ok(NotificationView { token, current, previous, context }),
                    },
                },
            },
        },
    }
}

/// Reads a notification from the wire.
pub fn decode_notification(n: &Json) -> (r: Result<DatabaseNotification, Error>)
    ensures
        match r {
            Ok(x) => decoded_notification(n@) == Ok::<NotificationView, ErrorView>(x@),
            Err(e) => decoded_notification(n@) == Err::<NotificationView, ErrorView>(e@),
        },
{
    let token = match text_of(n.member("token")) {
        Some(token) => token.clone(),
        None => {
            return Err(
                Error::from_client(
                    "Invalid response from server: notification token is not valid",
                ),
            );
        },
    };
    let current = match decode_field(n.member("current")) {
        Ok(f) => f,
        Err(e) => {
            return Err(e);
        },
    };
    let previous = match decode_field(n.member("previous")) {
        Ok(f) => f,
        Err(e) => {
            return Err(e);
        },
    };
    let items = match items_of(n.member("context")) {
        Some(items) => items,
        None => {
            return Err(
                Error::from_client(
                    "Invalid response from server: notification context is not valid",
                ),
            );
        },
    };
    let context = match decode_fields(items) {
        Ok(fields) => fields,
        Err(e) => {
            return Err(e);
        },
    };
    Ok(DatabaseNotification { token, current, previous, context })
}

/// What the answer to a poll for notifications stands for: the
/// notifications of the array under `notifications`, or the error of the
/// first item that stands for none.
pub open spec fn notifications_reply(payload: JsonView) -> Result<
    Seq<NotificationView>,
    ErrorView,
> {
    match items_at(payload.member("notifications"@)) {
        Some(items) => decoded_list(items, |n: JsonView| decoded_notification(n)),
        None => Err(no_notifications()),
    }
}

/// Reads the answer to a poll for notifications.
pub fn read_notifications_reply(payload: &Json) -> (r: Result<Vec<DatabaseNotification>, Error>)
    ensures
        notifications_answer(r) == notifications_reply(payload@),
{
    let items = match items_of(payload.member("notifications")) {
        Some(items) => items,
        None => {
            return Err(
                Error::from_client("Invalid response from server: notifications is not valid"),
            );
        },
    };
    let ghost decoded = |n: JsonView| decoded_notification(n);
    let ghost all = documents(items@);
    let mut result: Vec<DatabaseNotification> = Vec::new();
    let mut i: usize = 0;
    proof {
        assert(all.take(0) =~= Seq::empty());
        assert(notification_views(result@) =~= Seq::empty());
    }
    while i < items.len()
        invariant
            i <= items@.len(),
            all == documents(items@),
            items_at(payload@.member("notifications"@)) == Some(all),
            decoded == |n: JsonView| decoded_notification(n),
            decoded_list(all.take(i as int), decoded) == Ok::<Seq<NotificationView>, ErrorView>(
                notification_views(result@),
            ),
        decreases items@.len() - i,
    {
        let ghost done = notification_views(result@);
        proof {
            lemma_list_step(all, decoded, i as int, done);
        }
        match decode_notification(&items[i]) {
            Ok(notification) => {
                result.push(notification);
                assert(notification_views(result@) =~= done.push(notification@));
            },
            Err(e) => {
                return Err(e);
            },
        }
        i = i + 1;
    }
    assert(all.take(i as int) =~= all);
    Ok(result)
}

} // verus!
