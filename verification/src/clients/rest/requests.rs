//! The requests of the protocol.
//!
//! Every request is an object that names its kind under `@type`.

use vstd::prelude::*;
use crate::clients::rest::json::{documents, members, Json, JsonView};
use crate::clients::rest::values::{encode_value, encoded_value};
use crate::schema::field::{DatabaseField, FieldView};
use crate::schema::notification::{
    field_views,
    texts,
    ConfigView,
    NotificationConfig,
    NotificationToken,
};

verus! {

/// The requests that the remote service takes.
#[derive(Debug, Clone, Copy, PartialEq, Eq, Hash, Structural)]
pub enum RequestKind {
    GetEntity,
    GetEntities,
    Read,
    Write,
    Register,
    Unregister,
    GetNotifications,
}

impl RequestKind {
    /// The type tag that a request of this kind carries.
    pub open spec fn tag(self) -> Seq<char> {
        match self {
            RequestKind::GetEntity => "type.googleapis.com/qdb.WebConfigGetEntityRequest"@,
            RequestKind::GetEntities => "type.googleapis.com/qdb.WebRuntimeGetEntitiesRequest"@,
            RequestKind::Read => "type.googleapis.com/qdb.WebRuntimeDatabaseRequest"@,
            RequestKind::Write => "type.googleapis.com/qdb.WebRuntimeDatabaseRequest"@,
            RequestKind::Register => "type.googleapis.com/qdb.WebRuntimeRegisterNotificationRequest"@,
            RequestKind::Unregister => "type.googleapis.com/qdb.WebRuntimeUnregisterNotificationRequest"@,
            RequestKind::GetNotifications => "type.googleapis.com/qdb.WebRuntimeGetNotificationsRequest"@,
        }
    }

    /// The type tag that a request of this kind carries.
    pub fn type_tag(&self) -> (tag: &'static str)
        ensures
            tag@ == self.tag(),
    {
        match self {
            RequestKind::GetEntity => "type.googleapis.com/qdb.WebConfigGetEntityRequest",
            RequestKind::GetEntities => "type.googleapis.com/qdb.WebRuntimeGetEntitiesRequest",
            RequestKind::Read => "type.googleapis.com/qdb.WebRuntimeDatabaseRequest",
            RequestKind::Write => "type.googleapis.com/qdb.WebRuntimeDatabaseRequest",
            RequestKind::Register => "type.googleapis.com/qdb.WebRuntimeRegisterNotificationRequest",
            RequestKind::Unregister => "type.googleapis.com/qdb.WebRuntimeUnregisterNotificationRequest",
            RequestKind::GetNotifications => "type.googleapis.com/qdb.WebRuntimeGetNotificationsRequest",
        }
    }
}

/// The member that names the kind of a request.
pub open spec fn kind_member(kind: RequestKind) -> (Seq<char>, JsonView) {
    ("@type"@, JsonView::Text(kind.tag()))
}

/// The request for one entity.
pub open spec fn entity_request(entity_id: Seq<char>) -> JsonView {
    JsonView::Object(
        seq![kind_member(RequestKind::GetEntity), ("id"@, JsonView::Text(entity_id))],
    )
}

/// The request for the entities of one type.
pub open spec fn entities_request(entity_type: Seq<char>) -> JsonView {
    JsonView::Object(
        seq![kind_member(RequestKind::GetEntities), ("entityType"@, JsonView::Text(entity_type))],
    )
}

/// How a field is named in a request to read.
pub open spec fn asked_field(field: FieldView) -> JsonView {
    JsonView::Object(
        seq![("id"@, JsonView::Text(field.entity_id)), ("field"@, JsonView::Text(field.name))],
    )
}

/// How a field is given in a request to write: by name, with its value.
pub open spec fn written_field(field: FieldView) -> JsonView {
    JsonView::Object(
        seq![
            ("id"@, JsonView::Text(field.entity_id)),
            ("field"@, JsonView::Text(field.name)),
            ("value"@, encoded_value(field.value)),
        ],
    )
}

/// The request to read the fields.
pub open spec fn read_request(fields: Seq<FieldView>) -> JsonView {
    JsonView::Object(
        seq![
            kind_member(RequestKind::Read),
            ("requestType"@, JsonView::Text("READ"@)),
            ("requests"@, JsonView::Array(fields.map_values(|f: FieldView| asked_field(f)))),
        ],
    )
}

/// The request to write the fields.
pub open spec fn write_request(fields: Seq<FieldView>) -> JsonView {
    JsonView::Object(
        seq![
            kind_member(RequestKind::Write),
            ("requestType"@, JsonView::Text("WRITE"@)),
            ("requests"@, JsonView::Array(fields.map_values(|f: FieldView| written_field(f)))),
        ],
    )
}

/// How a filter is given in a request to register it.
pub open spec fn filter_document(config: ConfigView) -> JsonView {
    JsonView::Object(
        seq![
            ("id"@, JsonView::Text(config.entity_id)),
            ("type"@, JsonView::Text(config.entity_type)),
            ("field"@, JsonView::Text(config.field)),
            ("notifyOnChange"@, JsonView::Bool(config.notify_on_change)),
            (
                "contextFields"@,
                JsonView::Array(config.context.map_values(|s: Seq<char>| JsonView::Text(s))),
            ),
        ],
    )
}

/// The request to register the filter.
pub open spec fn register_request(config: ConfigView) -> JsonView {
    JsonView::Object(
        seq![
            kind_member(RequestKind::Register),
            ("requests"@, JsonView::Array(seq![filter_document(config)])),
        ],
    )
}

/// The request to unregister the token.
pub open spec fn unregister_request(token: Seq<char>) -> JsonView {
    JsonView::Object(
        seq![
            kind_member(RequestKind::Unregister),
            ("tokens"@, JsonView::Array(seq![JsonView::Text(token)])),
        ],
    )
}

/// The request for the notifications that wait.
pub open spec fn notifications_request() -> JsonView {
    JsonView::Object(seq![kind_member(RequestKind::GetNotifications)])
}

/// Starts the members of a request of the kind.
fn start(kind: RequestKind) -> (entries: Vec<(String, Json)>)
    ensures
        members(entries@) == seq![kind_member(kind)],
{
    let mut entries: Vec<(String, Json)> = Vec::new();
    assert(members(entries@) =~= Seq::empty());
    Json::push_member(&mut entries, "@type", Json::text(kind.type_tag()));
    assert(members(entries@) =~= seq![kind_member(kind)]);
    entries
}

/// Builds the request for one entity.
pub fn get_entity_request(entity_id: &str) -> (j: Json)
    ensures
        j@ == entity_request(entity_id@),
{
    let mut entries = start(RequestKind::GetEntity);
    Json::push_member(&mut entries, "id", Json::text(entity_id));
    let j = Json::object(entries);
    assert(j@->Object_0 =~= entity_request(entity_id@)->Object_0);
    j
}

/// Builds the request for the entities of one type.
pub fn get_entities_request(entity_type: &str) -> (j: Json)
    ensures
        j@ == entities_request(entity_type@),
{
    let mut entries = start(RequestKind::GetEntities);
    Json::push_member(&mut entries, "entityType", Json::text(entity_type));
    let j = Json::object(entries);
    assert(j@->Object_0 =~= entities_request(entity_type@)->Object_0);
    j
}

/// Builds the request to read the fields.
pub fn get_read_request(requests: &Vec<DatabaseField>) -> (j: Json)
    ensures
        j@ == read_request(field_views(requests@)),
{
    let ghost fields = field_views(requests@);
    let mut items: Vec<Json> = Vec::new();
    let mut i: usize = 0;
    assert(documents(items@) =~= Seq::empty());
    while i < requests.len()
        invariant
            i <= requests@.len(),
            fields == field_views(requests@),
            documents(items@) == fields.take(i as int).map_values(|f: FieldView| asked_field(f)),
        decreases requests@.len() - i,
    {
        let mut entries: Vec<(String, Json)> = Vec::new();
        assert(members(entries@) =~= Seq::empty());
        Json::push_member(&mut entries, "id", Json::Text(requests[i].entity_id()));
        Json::push_member(&mut entries, "field", Json::Text(requests[i].name()));
        let item = Json::object(entries);
        assert(item@->Object_0 =~= asked_field(fields[i as int])->Object_0);
        Json::push_item(&mut items, item);
        assert(documents(items@) =~= fields.take(i + 1).map_values(
            |f: FieldView| asked_field(f),
        ));
        i = i + 1;
    }
    assert(fields.take(i as int) =~= fields);
    let mut entries = start(RequestKind::Read);
    Json::push_member(&mut entries, "requestType", Json::text("READ"));
    Json::push_member(&mut entries, "requests", Json::array(items));
    let j = Json::object(entries);
    assert(j@->Object_0 =~= read_request(fields)->Object_0);
    j
}

/// Builds the request to write the fields.
pub fn get_write_request(requests: &Vec<DatabaseField>) -> (j: Json)
    ensures
        j@ == write_request(field_views(requests@)),
{
    let ghost fields = field_views(requests@);
    let mut items: Vec<Json> = Vec::new();
    let mut i: usize = 0;
    assert(documents(items@) =~= Seq::empty());
    while i < requests.len()
        invariant
            i <= requests@.len(),
            fields == field_views(requests@),
            documents(items@) == fields.take(i as int).map_values(|f: FieldView| written_field(f)),
        decreases requests@.len() - i,
    {
        let value = requests[i].value().into_raw();
        let mut entries: Vec<(String, Json)> = Vec::new();
        assert(members(entries@) =~= Seq::empty());
        Json::push_member(&mut entries, "id", Json::Text(requests[i].entity_id()));
        Json::push_member(&mut entries, "field", Json::Text(requests[i].name()));
        Json::push_member(&mut entries, "value", encode_value(&value));
        let item = Json::object(entries);
        assert(item@->Object_0 =~= written_field(fields[i as int])->Object_0);
        Json::push_item(&mut items, item);
        assert(documents(items@) =~= fields.take(i + 1).map_values(
            |f: FieldView| written_field(f),
        ));
        i = i + 1;
    }
    assert(fields.take(i as int) =~= fields);
    let mut entries = start(RequestKind::Write);
    Json::push_member(&mut entries, "requestType", Json::text("WRITE"));
    Json::push_member(&mut entries, "requests", Json::array(items));
    let j = Json::object(entries);
    assert(j@->Object_0 =~= write_request(fields)->Object_0);
    j
}

/// Builds the request to register the filter.
pub fn get_register_request(config: &NotificationConfig) -> (j: Json)
    ensures
        j@ == register_request(config@),
{
    let ghost names = texts(config.context@);
    let mut context: Vec<Json> = Vec::new();
    let mut i: usize = 0;
    assert(documents(context@) =~= Seq::empty());
    while i < config.context.len()
        invariant
            i <= config.context@.len(),
            names == texts(config.context@),
            documents(context@) == names.take(i as int).map_values(
                |s: Seq<char>| JsonView::Text(s),
            ),
        decreases config.context@.len() - i,
    {
        Json::push_item(&mut context, Json::Text(config.context[i].clone()));
        assert(documents(context@) =~= names.take(i + 1).map_values(
            |s: Seq<char>| JsonView::Text(s),
        ));
        i = i + 1;
    }
    assert(names.take(i as int) =~= names);
    let mut filter: Vec<(String, Json)> = Vec::new();
    assert(members(filter@) =~= Seq::empty());
    Json::push_member(&mut filter, "id", Json::Text(config.entity_id.clone()));
    Json::push_member(&mut filter, "type", Json::Text(config.entity_type.clone()));
    Json::push_member(&mut filter, "field", Json::Text(config.field.clone()));
    Json::push_member(&mut filter, "notifyOnChange", Json::Bool(config.notify_on_change));
    Json::push_member(&mut filter, "contextFields", Json::array(context));
    let filter = Json::object(filter);
    assert(filter@->Object_0 =~= filter_document(config@)->Object_0);
    let mut filters: Vec<Json> = Vec::new();
    assert(documents(filters@) =~= Seq::empty());
    Json::push_item(&mut filters, filter);
    assert(documents(filters@) =~= seq![filter_document(config@)]);
    let mut entries = start(RequestKind::Register);
    Json::push_member(&mut entries, "requests", Json::array(filters));
    let j = Json::object(entries);
    assert(j@->Object_0 =~= register_request(config@)->Object_0);
    j
}

/// Builds the request to unregister the token.
pub fn get_unregister_request(token: &NotificationToken) -> (j: Json)
    ensures
        j@ == unregister_request(token@),
{
    let mut tokens: Vec<Json> = Vec::new();
    assert(documents(tokens@) =~= Seq::empty());
    Json::push_item(&mut tokens, Json::Text(token.to_text()));
    assert(documents(tokens@) =~= seq![JsonView::Text(token@)]);
    let mut entries = start(RequestKind::Unregister);
    Json::push_member(&mut entries, "tokens", Json::array(tokens));
    let j = Json::object(entries);
    assert(j@->Object_0 =~= unregister_request(token@)->Object_0);
    j
}

/// Builds the request for the notifications that wait.
pub fn get_notifications_request() -> (j: Json)
    ensures
        j@ == notifications_request(),
{
    let entries = start(RequestKind::GetNotifications);
    let j = Json::object(entries);
    assert(j@->Object_0 =~= notifications_request()->Object_0);
    j
}

} // verus!
