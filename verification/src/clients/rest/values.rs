//! Values on the wire.
//!
//! A value is written as an object of its type tag and its raw payload. Every
//! way in which a value that was received can fall short is a
//! [`Error::ClientError`].

use vstd::prelude::*;
use crate::clients::rest::decimal::{decimal_i64, parse_i64};
use crate::clients::rest::json::{first_under, text_at, text_of, Json, JsonView};
use crate::clients::rest::tags::{kind_of, lemma_tags_round_trip, tag_of, tagged_kind, type_tag};
use crate::error::{Error, ErrorView};
use crate::schema::time::{rfc3339_instant, Timestamp};
use crate::schema::value::{RawValue, ValueKind, ValueView};

verus! {

/// The error for a value without a known type tag.
pub open spec fn bad_value_type() -> ErrorView {
    ErrorView::ClientError("Invalid response from server: value type is not valid"@)
}

/// The error for a value whose payload does not fit its type tag.
pub open spec fn bad_value() -> ErrorView {
    ErrorView::ClientError("Invalid response from server: value is not valid"@)
}

/// The value that a payload stands for under a kind, if it fits the kind.
///
/// Text stands for a string, an entity reference, a connection state and a
/// garage door state; decimal text for an integer; RFC 3339 text for a
/// timestamp; a float for a float; a boolean for a boolean.
pub open spec fn decoded_payload(kind: ValueKind, raw: Option<JsonView>) -> Option<ValueView> {
    match (kind, raw) {
        (ValueKind::String, Some(JsonView::Text(s))) => Some(ValueView::String(s)),
        (ValueKind::Integer, Some(JsonView::Text(s))) => match decimal_i64(s) {
            Some(i) => Some(ValueView::Integer(i)),
            None => None,
        },
        (ValueKind::Float, Some(JsonView::Float(bits))) => Some(ValueView::Float(bits)),
        (ValueKind::Boolean, Some(JsonView::Bool(b))) => Some(ValueView::Boolean(b)),
        (ValueKind::EntityReference, Some(JsonView::Text(s))) => Some(
            ValueView::EntityReference(s),
        ),
        (ValueKind::Timestamp, Some(JsonView::Text(s))) => match rfc3339_instant(s) {
            Some(t) => Some(ValueView::Timestamp(t)),
            None => None,
        },
        (ValueKind::ConnectionState, Some(JsonView::Text(s))) => Some(
            ValueView::ConnectionState(s),
        ),
        (ValueKind::GarageDoorState, Some(JsonView::Text(s))) => Some(
            ValueView::GarageDoorState(s),
        ),
        _ => None,
    }
}

/// The value that a document stands for: the one its member `raw` stands
/// for under the kind that its member `@type` names.
pub open spec fn decoded_value(v: JsonView) -> Result<ValueView, ErrorView> {
    match text_at(v.member("@type"@)) {
        None => Err(bad_value_type()),
        Some(tag) => match kind_of(tag) {
            None => Err(bad_value_type()),
            Some(kind) => match decoded_payload(kind, v.member("raw"@)) {
                Some(value) => Ok(value),
                None => Err(bad_value()),
            },
        },
    }
}

/// The mathematical content of a decoded value or its error.
pub open spec fn value_answer(r: Result<RawValue, Error>) -> Result<ValueView, ErrorView> {
    match r {
        Ok(v) => Ok(v@),
        Err(e) => Err(e@),
    }
}

/// The timestamp value that the outcome of parsing RFC 3339 text gives: the
/// instant, or the error for a payload that does not fit.
pub fn timestamp_value(parsed: Option<Timestamp>) -> (r: Result<RawValue, Error>)
    ensures
        value_answer(r) == match parsed {
            Some(t) => Ok::<ValueView, ErrorView>(ValueView::Timestamp(t)),
            None => Err::<ValueView, ErrorView>(bad_value()),
        },
{
    match parsed {
        Some(t) => Ok(RawValue::Timestamp(t)),
        None => Err(Error::from_client("Invalid response from server: value is not valid")),
    }
}

/// Reads a value from the wire.
pub fn decode_value(v: &Json) -> (r: Result<RawValue, Error>)
    ensures
        value_answer(r) == decoded_value(v@),
{
    let tag = match text_of(v.member("@type")) {
        Some(tag) => tag,
        None => {
            return Err(
                Error::from_client("Invalid response from server: value type is not valid"),
            );
        },
    };
    let kind = match tagged_kind(tag.as_str()) {
        Some(kind) => kind,
        None => {
            return Err(
                Error::from_client("Invalid response from server: value type is not valid"),
            );
        },
    };
    proof {
        lemma_tags_round_trip(kind);
    }
    match (kind, v.member("raw")) {
        (ValueKind::String, Some(Json::Text(s))) => Ok(RawValue::String(s.clone())),
        (ValueKind::Integer, Some(Json::Text(s))) => match parse_i64(s.as_str()) {
            Some(i) => Ok(RawValue::Integer(i)),
            None => Err(Error::from_client("Invalid response from server: value is not valid")),
        },
        (ValueKind::Float, Some(Json::Float(bits))) => Ok(RawValue::Float(*bits)),
        (ValueKind::Boolean, Some(Json::Bool(b))) => Ok(RawValue::Boolean(*b)),
        (ValueKind::EntityReference, Some(Json::Text(s))) => Ok(
            RawValue::EntityReference(s.clone()),
        ),
        (ValueKind::Timestamp, Some(Json::Text(s))) => timestamp_value(
            Timestamp::parse_rfc3339(s.as_str()),
        ),
        (ValueKind::ConnectionState, Some(Json::Text(s))) => Ok(
            RawValue::ConnectionState(s.clone()),
        ),
        (ValueKind::GarageDoorState, Some(Json::Text(s))) => Ok(
            RawValue::GarageDoorState(s.clone()),
        ),
        _ => Err(Error::from_client("Invalid response from server: value is not valid")),
    }
}

/// The raw payload that a value is written with.
///
/// Texts are written as text, a boolean as a boolean, a float as a float, an
/// integer as an integer and a timestamp as an object of seconds and
/// nanoseconds.
pub open spec fn written_raw(value: ValueView) -> JsonView {
    match value {
        ValueView::Unspecified => JsonView::Null,
        ValueView::String(s) => JsonView::Text(s),
        ValueView::Integer(i) => JsonView::Integer(i),
        ValueView::Float(bits) => JsonView::Float(bits),
        ValueView::Boolean(b) => JsonView::Bool(b),
        ValueView::EntityReference(s) => JsonView::Text(s),
        ValueView::Timestamp(t) => JsonView::Object(
            seq![
                ("seconds"@, JsonView::Integer(t.seconds)),
                ("nanos"@, JsonView::Integer(t.nanos as i64)),
            ],
        ),
        ValueView::ConnectionState(s) => JsonView::Text(s),
        ValueView::GarageDoorState(s) => JsonView::Text(s),
    }
}

/// The document that a value is written as: an object of the tag of its kind
/// and its raw payload. An unspecified value is written as null.
pub open spec fn encoded_value(value: ValueView) -> JsonView {
    match tag_of(value.kind()) {
        Some(tag) => JsonView::Object(
            seq![("@type"@, JsonView::Text(tag)), ("raw"@, written_raw(value))],
        ),
        None => JsonView::Null,
    }
}

/// Writes a value for the wire.
pub fn encode_value(value: &RawValue) -> (j: Json)
    ensures
        j@ == encoded_value(value@),
{
    let tag = match type_tag(value.kind()) {
        Some(tag) => tag,
        None => {
            return Json::Null;
        },
    };
    let raw = match value {
        RawValue::Unspecified => Json::Null,
        RawValue::String(s) => Json::Text(s.clone()),
        RawValue::Integer(i) => Json::Integer(*i),
        RawValue::Float(bits) => Json::Float(*bits),
        RawValue::Boolean(b) => Json::Bool(*b),
        RawValue::EntityReference(s) => Json::Text(s.clone()),
        RawValue::Timestamp(t) => {
            let mut parts: Vec<(String, Json)> = Vec::new();
            Json::push_member(&mut parts, "seconds", Json::Integer(t.seconds));
            Json::push_member(&mut parts, "nanos", Json::Integer(t.nanos as i64));
            let parts = Json::object(parts);
            assert(parts@->Object_0 =~= written_raw(value@)->Object_0);
            parts
        },
        RawValue::ConnectionState(s) => Json::Text(s.clone()),
        RawValue::GarageDoorState(s) => Json::Text(s.clone()),
    };
    let mut entries: Vec<(String, Json)> = Vec::new();
    Json::push_member(&mut entries, "@type", Json::text(tag));
    Json::push_member(&mut entries, "raw", raw);
    let j = Json::object(entries);
    assert(j@->Object_0 =~= encoded_value(value@)->Object_0);
    j
}

/// Values round-trip. A value that is written comes back under its own kind
/// or not at all; and it comes back as it went where it is read in the form
/// in which it is written, which holds of every kind but integers and
/// timestamps: those are written as numbers and read as text.
pub proof fn lemma_values_round_trip(value: ValueView)
    requires
        !(value is Unspecified),
    ensures
        text_at(encoded_value(value).member("@type"@)) == tag_of(value.kind()),
        kind_of(tag_of(value.kind()).unwrap()) == Some(value.kind()),
        encoded_value(value).member("raw"@) == Some(written_raw(value)),
        decoded_value(encoded_value(value)) matches Ok(back) ==> back.kind() == value.kind(),
        !(value is Integer) && !(value is Timestamp) ==> decoded_value(encoded_value(value)) == Ok::<
            ValueView,
            ErrorView,
        >(value),
{
    lemma_tags_round_trip(value.kind());
    reveal_strlit("@type");
    reveal_strlit("raw");
    reveal_with_fuel(first_under, 3);
    let entries = encoded_value(value)->Object_0;
    assert("@type"@.len() != "raw"@.len());
    assert(entries.first() == ("@type"@, JsonView::Text(tag_of(value.kind()).unwrap())));
    assert(entries.drop_first().first() == ("raw"@, written_raw(value)));
}

} // verus!
