use qdb::clients::rest::decimal::parse_i64;
use qdb::clients::rest::entities::{
    decode_entity, read_entities_reply, read_entity_reply, read_token_reply,
};
use qdb::clients::rest::exchange::{take_item, take_read_reply};
use qdb::clients::rest::fields::{
    assemble_field, decode_field, decode_fields, decode_notification, read_notifications_reply,
};
use qdb::clients::rest::json::{items_of, member_of, object_of, text_of, Json};
use qdb::clients::rest::protocol::Protocol;
use qdb::clients::rest::requests::{
    get_entities_request, get_entity_request, get_notifications_request, get_read_request,
    get_register_request, get_unregister_request, get_write_request, RequestKind,
};
use qdb::clients::rest::session::{has_authenticated, Session};
use qdb::clients::rest::tags::{same_text, tagged_kind, type_tag};
use qdb::clients::rest::values::{decode_value, encode_value, timestamp_value};
use qdb::error::Error;
use qdb::loggers::console::Console;
use qdb::schema::entity::Entity;
use qdb::schema::field::{DatabaseField, RawField};
use qdb::schema::notification::{NotificationConfig, NotificationToken};
use qdb::schema::time::Timestamp;
use qdb::schema::value::{RawValue, ValueKind};

fn client_error<T: std::fmt::Debug>(r: Result<T, Error>) -> String {
    match r {
        Err(Error::ClientError(m)) => m,
        other => panic!("expected a client error, got {:?}", other),
    }
}

fn text(s: &str) -> Json {
    Json::Text(s.to_string())
}

fn object(members: Vec<(&str, Json)>) -> Json {
    Json::Object(members.into_iter().map(|(k, v)| (k.to_string(), v)).collect())
}

/// A rendering of a document, to compare documents by.
fn show(j: &Json) -> String {
    match j {
        Json::Null => "null".to_string(),
        Json::Bool(b) => b.to_string(),
        Json::Integer(i) => i.to_string(),
        Json::Float(bits) => format!("{:?}", f64::from_bits(*bits)),
        Json::Text(s) => format!("{:?}", s),
        Json::Array(items) => {
            format!("[{}]", items.iter().map(show).collect::<Vec<_>>().join(","))
        }
        Json::Object(members) => format!(
            "{{{}}}",
            members.iter().map(|(k, v)| format!("{:?}:{}", k, show(v))).collect::<Vec<_>>().join(",")
        ),
    }
}

fn wire(tag: &str, raw: Json) -> Json {
    object(vec![("@type", text(tag)), ("raw", raw)])
}

const KINDS: [(ValueKind, &str); 8] = [
    (ValueKind::String, "type.googleapis.com/qdb.String"),
    (ValueKind::Integer, "type.googleapis.com/qdb.Int"),
    (ValueKind::Float, "type.googleapis.com/qdb.Float"),
    (ValueKind::Boolean, "type.googleapis.com/qdb.Bool"),
    (ValueKind::EntityReference, "type.googleapis.com/qdb.EntityReference"),
    (ValueKind::Timestamp, "type.googleapis.com/qdb.Timestamp"),
    (ValueKind::ConnectionState, "type.googleapis.com/qdb.ConnectionState"),
    (ValueKind::GarageDoorState, "type.googleapis.com/qdb.GarageDoorState"),
];

#[test]
fn decimal_text_parses_like_the_standard_library() {
    let cases = [
        "0", "7", "-7", "+7", "007", "-0", "+0", "9223372036854775807", "-9223372036854775808",
        "9223372036854775808", "-9223372036854775809", "99999999999999999999999999", "", "-", "+",
        "--1", "+-1", "1-", "1 ", " 1", "1_000", "1.0", "0x10", "١٢", "12a", "a12",
        "00000000000000000000000000000000000012", "-00000000000000000000009223372036854775808",
    ];
    for c in cases {
        assert_eq!(parse_i64(c), c.parse::<i64>().ok(), "for {:?}", c);
    }
    assert_eq!(parse_i64("42"), Some(42));
    assert_eq!(parse_i64("-9223372036854775808"), Some(i64::MIN));
    assert_eq!(parse_i64("9223372036854775808"), None);
}

#[test]
fn tags_round_trip() {
    for (kind, tag) in KINDS {
        assert_eq!(type_tag(kind), Some(tag));
        assert_eq!(tagged_kind(tag), Some(kind));
    }
    assert_eq!(type_tag(ValueKind::Unspecified), None);
    assert_eq!(tagged_kind(""), None);
    assert_eq!(tagged_kind("type.googleapis.com/qdb.string"), None);
    assert_eq!(tagged_kind("type.googleapis.com/qdb.Strin"), None);
    assert_eq!(tagged_kind("type.googleapis.com/qdb.Strings"), None);
    assert!(same_text("a", "a"));
    assert!(!same_text("a", "b"));
    assert!(!same_text("a", ""));
}

#[test]
fn documents_are_read_member_by_member() {
    let doc = object(vec![
        ("a", text("x")),
        ("b", object(vec![("c", Json::Array(vec![Json::Bool(true), Json::Null]))])),
        ("a", text("second")),
    ]);
    assert_eq!(text_of(doc.member("a")).unwrap(), "x");
    assert!(doc.member("z").is_none());
    assert!(text_of(doc.member("b")).is_none());
    assert!(object_of(doc.member("a")).is_none());
    let inner = object_of(doc.member("b"));
    assert!(inner.is_some());
    let items = items_of(member_of(inner, "c")).unwrap();
    assert_eq!(items.len(), 2);
    assert!(matches!(items[0], Json::Bool(true)));
    assert!(member_of(None, "a").is_none());
    assert!(text("t").member("a").is_none());
    assert!(Json::Null.as_text().is_none());
    assert!(Json::Null.as_array().is_none());
    assert!(doc.is_object());
    assert!(!text("t").is_object());
    assert_eq!(show(&doc.duplicate()), show(&doc));
    assert_eq!(show(&Json::text("q")), "\"q\"");
    assert_eq!(show(&Json::array(vec![Json::Integer(1)])), "[1]");
    assert_eq!(show(&Json::object(vec![("k".to_string(), Json::Null)])), "{\"k\":null}");
    let mut members = vec![];
    Json::push_member(&mut members, "k", Json::Bool(false));
    let mut items = vec![];
    Json::push_item(&mut items, Json::Object(members));
    assert_eq!(show(&Json::Array(items)), "[{\"k\":false}]");
}

#[test]
fn values_decode_by_their_tag() {
    assert_eq!(decode_value(&wire(KINDS[0].1, text("hi"))).unwrap(), RawValue::String("hi".into()));
    assert_eq!(decode_value(&wire(KINDS[1].1, text("-12"))).unwrap(), RawValue::Integer(-12));
    assert_eq!(
        decode_value(&wire(KINDS[2].1, Json::Float(1.25f64.to_bits()))).unwrap(),
        RawValue::Float(1.25f64.to_bits())
    );
    assert_eq!(decode_value(&wire(KINDS[3].1, Json::Bool(true))).unwrap(), RawValue::Boolean(true));
    assert_eq!(
        decode_value(&wire(KINDS[4].1, text("e1"))).unwrap(),
        RawValue::EntityReference("e1".into())
    );
    assert_eq!(
        decode_value(&wire(KINDS[5].1, text("2015-05-15T00:00:00.453Z"))).unwrap(),
        RawValue::Timestamp(Timestamp::new(1431648000, 453_000_000))
    );
    assert_eq!(
        decode_value(&wire(KINDS[6].1, text("CONNECTED"))).unwrap(),
        RawValue::ConnectionState("CONNECTED".into())
    );
    assert_eq!(
        decode_value(&wire(KINDS[7].1, text("OPEN"))).unwrap(),
        RawValue::GarageDoorState("OPEN".into())
    );
}

#[test]
fn timestamps_are_taken_to_utc() {
    assert_eq!(
        decode_value(&wire(KINDS[5].1, text("1996-12-19T16:39:57-08:00"))).unwrap(),
        RawValue::Timestamp(Timestamp::new(851042397, 0))
    );
    assert_eq!(
        decode_value(&wire(KINDS[5].1, text("1970-01-01T00:00:00Z"))).unwrap(),
        RawValue::Timestamp(Timestamp::new(0, 0))
    );
    assert_eq!(
        decode_value(&wire(KINDS[5].1, text("1969-12-31T23:59:59.5Z"))).unwrap(),
        RawValue::Timestamp(Timestamp::new(-1, 500_000_000))
    );
}

#[test]
fn values_that_do_not_fit_are_client_errors() {
    let bad_type = "Invalid response from server: value type is not valid";
    let bad_value = "Invalid response from server: value is not valid";
    assert_eq!(client_error(decode_value(&object(vec![("raw", text("x"))]))), bad_type);
    assert_eq!(client_error(decode_value(&object(vec![]))), bad_type);
    assert_eq!(client_error(decode_value(&Json::Null)), bad_type);
    assert_eq!(client_error(decode_value(&wire("type.googleapis.com/qdb.Nope", text("x")))), bad_type);
    assert_eq!(
        client_error(decode_value(&object(vec![("@type", Json::Bool(true)), ("raw", text("x"))]))),
        bad_type
    );
    assert_eq!(client_error(decode_value(&object(vec![("@type", text(KINDS[0].1))]))), bad_value);
    assert_eq!(client_error(decode_value(&wire(KINDS[0].1, Json::Bool(true)))), bad_value);
    assert_eq!(client_error(decode_value(&wire(KINDS[0].1, Json::Null))), bad_value);
    assert_eq!(client_error(decode_value(&wire(KINDS[1].1, Json::Integer(5)))), bad_value);
    assert_eq!(client_error(decode_value(&wire(KINDS[1].1, text("five")))), bad_value);
    assert_eq!(client_error(decode_value(&wire(KINDS[1].1, text("9223372036854775808")))), bad_value);
    assert_eq!(client_error(decode_value(&wire(KINDS[2].1, text("1.5")))), bad_value);
    assert_eq!(client_error(decode_value(&wire(KINDS[3].1, text("true")))), bad_value);
    assert_eq!(client_error(decode_value(&wire(KINDS[4].1, Json::Float(0)))), bad_value);
    assert_eq!(client_error(decode_value(&wire(KINDS[5].1, text("yesterday")))), bad_value);
    assert_eq!(client_error(decode_value(&wire(KINDS[5].1, text("2015-05-15 00:00:00")))), bad_value);
    assert_eq!(client_error(decode_value(&wire(KINDS[6].1, Json::Array(vec![])))), bad_value);
    assert_eq!(client_error(decode_value(&wire(KINDS[7].1, Json::Bool(false)))), bad_value);
    assert_eq!(client_error(timestamp_value(None)), bad_value);
    assert_eq!(
        timestamp_value(Some(Timestamp::new(3, 4))).unwrap(),
        RawValue::Timestamp(Timestamp::new(3, 4))
    );
}

#[test]
fn values_encode_under_their_tag() {
    assert_eq!(show(&encode_value(&RawValue::Unspecified)), "null");
    assert_eq!(
        show(&encode_value(&RawValue::String("s".into()))),
        "{\"@type\":\"type.googleapis.com/qdb.String\",\"raw\":\"s\"}"
    );
    assert_eq!(
        show(&encode_value(&RawValue::Integer(-3))),
        "{\"@type\":\"type.googleapis.com/qdb.Int\",\"raw\":-3}"
    );
    assert_eq!(
        show(&encode_value(&RawValue::Float(2.5f64.to_bits()))),
        "{\"@type\":\"type.googleapis.com/qdb.Float\",\"raw\":2.5}"
    );
    assert_eq!(
        show(&encode_value(&RawValue::Boolean(false))),
        "{\"@type\":\"type.googleapis.com/qdb.Bool\",\"raw\":false}"
    );
    assert_eq!(
        show(&encode_value(&RawValue::EntityReference("e".into()))),
        "{\"@type\":\"type.googleapis.com/qdb.EntityReference\",\"raw\":\"e\"}"
    );
    assert_eq!(
        show(&encode_value(&RawValue::Timestamp(Timestamp::new(-5, 7)))),
        "{\"@type\":\"type.googleapis.com/qdb.Timestamp\",\"raw\":{\"seconds\":-5,\"nanos\":7}}"
    );
    assert_eq!(
        show(&encode_value(&RawValue::ConnectionState("c".into()))),
        "{\"@type\":\"type.googleapis.com/qdb.ConnectionState\",\"raw\":\"c\"}"
    );
    assert_eq!(
        show(&encode_value(&RawValue::GarageDoorState("g".into()))),
        "{\"@type\":\"type.googleapis.com/qdb.GarageDoorState\",\"raw\":\"g\"}"
    );
}

#[test]
fn written_values_come_back_under_their_kind() {
    let same = [
        RawValue::String("s".into()),
        RawValue::Float(2.5f64.to_bits()),
        RawValue::Boolean(true),
        RawValue::EntityReference("e".into()),
        RawValue::ConnectionState("c".into()),
        RawValue::GarageDoorState("g".into()),
    ];
    for v in same {
        let w = encode_value(&v);
        assert_eq!(tagged_kind(text_of(w.member("@type")).unwrap()), Some(v.kind()));
        assert_eq!(decode_value(&w).unwrap(), v);
    }
    // integers and timestamps are read in another form than they are written in
    for v in [RawValue::Integer(4), RawValue::Timestamp(Timestamp::new(1, 2))] {
        let w = encode_value(&v);
        assert_eq!(tagged_kind(text_of(w.member("@type")).unwrap()), Some(v.kind()));
        assert!(decode_value(&w).is_err());
    }
}

fn wire_entity(id: Option<&str>, t: Option<&str>, name: Option<&str>) -> Json {
    let mut members = vec![];
    if let Some(id) = id {
        members.push(("id", text(id)));
    }
    if let Some(t) = t {
        members.push(("type", text(t)));
    }
    if let Some(name) = name {
        members.push(("name", text(name)));
    }
    object(members)
}

#[test]
fn entities_need_all_three_parts() {
    let full = wire_entity(Some("1"), Some("Light"), Some("Hall"));
    assert_eq!(decode_entity(&full).unwrap(), Entity::new("1", "Light", "Hall"));
    assert_eq!(
        client_error(decode_entity(&wire_entity(None, None, None))),
        "Invalid response from server: entity id is not valid"
    );
    assert_eq!(
        client_error(decode_entity(&wire_entity(Some("1"), None, None))),
        "Invalid response from server: entity type is not valid"
    );
    assert_eq!(
        client_error(decode_entity(&wire_entity(Some("1"), Some("T"), None))),
        "Invalid response from server: entity name is not valid"
    );
    assert_eq!(
        client_error(decode_entity(&object(vec![("id", Json::Float(0)), ("type", text("T"))]))),
        "Invalid response from server: entity id is not valid"
    );
    assert_eq!(
        read_entity_reply(&object(vec![("entity", full)])).unwrap(),
        Entity::new("1", "Light", "Hall")
    );
    let missing = "Invalid response from server: Failed to extract entity";
    assert_eq!(client_error(read_entity_reply(&object(vec![]))), missing);
    assert_eq!(client_error(read_entity_reply(&object(vec![("entity", text("e"))]))), missing);
    assert_eq!(client_error(read_entity_reply(&Json::Null)), missing);
}

#[test]
fn entity_lists_stop_at_the_first_bad_item() {
    let a = || wire_entity(Some("1"), Some("T"), Some("a"));
    let b = || wire_entity(Some("2"), Some("T"), Some("b"));
    let reply = |items: Vec<Json>| object(vec![("entities", Json::Array(items))]);
    assert_eq!(
        read_entities_reply(&reply(vec![a(), b()])).unwrap(),
        vec![Entity::new("1", "T", "a"), Entity::new("2", "T", "b")]
    );
    assert_eq!(read_entities_reply(&reply(vec![])).unwrap(), Vec::<Entity>::new());
    let missing = "Invalid response from server: Failed to extract entities";
    assert_eq!(client_error(read_entities_reply(&object(vec![]))), missing);
    assert_eq!(client_error(read_entities_reply(&object(vec![("entities", a())]))), missing);
    assert_eq!(
        client_error(read_entities_reply(&reply(vec![a(), Json::Null, b()]))),
        "Invalid response from server: entity is not an object"
    );
    assert_eq!(
        client_error(read_entities_reply(&reply(vec![
            a(),
            wire_entity(Some("3"), None, Some("c")),
            Json::Null,
        ]))),
        "Invalid response from server: entity type is not valid"
    );
}

#[test]
fn the_first_token_of_the_reply_is_taken() {
    let reply = |items: Vec<Json>| object(vec![("tokens", Json::Array(items))]);
    assert_eq!(read_token_reply(&reply(vec![text("t1"), text("t2")])).unwrap().to_text(), "t1");
    let bad = "Invalid response from server: token is not valid";
    assert_eq!(client_error(read_token_reply(&object(vec![]))), bad);
    assert_eq!(client_error(read_token_reply(&object(vec![("tokens", text("t"))]))), bad);
    assert_eq!(client_error(read_token_reply(&reply(vec![]))), bad);
    assert_eq!(client_error(read_token_reply(&reply(vec![Json::Null, text("t")]))), bad);
}

fn wire_field(id: &str, name: &str, time: &str) -> Vec<(&'static str, Json)> {
    vec![
        ("id", text(id)),
        ("name", text(name)),
        ("writeTime", text(time)),
        ("writerId", text("w")),
        ("value", wire(KINDS[1].1, text("5"))),
    ]
}

fn without(members: Vec<(&'static str, Json)>, key: &str) -> Json {
    object(members.into_iter().filter(|(k, _)| *k != key).collect())
}

#[test]
fn fields_decode_with_defaults() {
    let full = object(wire_field("e", "n", "2015-05-15T00:00:00Z"));
    let f = decode_field(Some(&full)).unwrap();
    assert_eq!(f.entity_id(), "e");
    assert_eq!(f.name(), "n");
    assert_eq!(f.write_time(), Timestamp::new(1431648000, 0));
    assert_eq!(f.writer_id(), "w");
    assert_eq!(f.value().as_i64().unwrap(), 5);
    let mut members = wire_field("e", "n", "2015-05-15T00:00:00Z");
    members.retain(|(k, _)| *k != "writerId" && *k != "value");
    let f = decode_field(Some(&object(members))).unwrap();
    assert_eq!(f.writer_id(), "");
    assert!(f.value().is_unspecified());
    let mut members = wire_field("e", "n", "2015-05-15T00:00:00Z");
    members.retain(|(k, _)| *k != "value");
    members.push(("value", wire(KINDS[1].1, text("five"))));
    assert!(decode_field(Some(&object(members))).unwrap().value().is_unspecified());
    let mut members = wire_field("e", "n", "2015-05-15T00:00:00Z");
    members.retain(|(k, _)| *k != "value");
    members.push(("value", text("not an object")));
    assert!(decode_field(Some(&object(members))).unwrap().value().is_unspecified());
}

#[test]
fn fields_need_entity_name_and_time() {
    let time = "2015-05-15T00:00:00Z";
    assert_eq!(
        client_error(decode_field(Some(&without(wire_field("e", "n", time), "id"))).map(|_| ())),
        "Invalid response from server: entity ID is not valid"
    );
    assert_eq!(
        client_error(decode_field(None).map(|_| ())),
        "Invalid response from server: entity ID is not valid"
    );
    assert_eq!(
        client_error(decode_field(Some(&without(wire_field("e", "n", time), "name"))).map(|_| ())),
        "Invalid response from server: name is not valid"
    );
    let timeless = without(wire_field("e", "n", time), "writeTime");
    assert_eq!(
        client_error(decode_field(Some(&timeless)).map(|_| ())),
        "Invalid response from server: writeTime is not valid"
    );
    assert_eq!(
        client_error(assemble_field(Some(&timeless), Some(Timestamp::new(1, 1))).map(|_| ())),
        "Invalid response from server: writeTime is not valid"
    );
    let noon = object(wire_field("e", "n", "noon"));
    assert_eq!(
        client_error(decode_field(Some(&noon)).map(|_| ())),
        "Invalid response from server: writeTime is not valid"
    );
    let ok = assemble_field(Some(&noon), Some(Timestamp::new(8, 9))).unwrap();
    assert_eq!(ok.write_time(), Timestamp::new(8, 9));
    assert_eq!(decode_fields(&vec![]).unwrap().len(), 0);
    assert!(decode_fields(&vec![object(wire_field("e", "n", time)), noon]).is_err());
}

fn wire_notification(token: Option<&str>) -> Vec<(&'static str, Json)> {
    let mut members = vec![];
    if let Some(token) = token {
        members.push(("token", text(token)));
    }
    members.push(("current", object(wire_field("e", "n", "2015-05-15T00:00:01Z"))));
    members.push(("previous", object(wire_field("e", "n", "2015-05-15T00:00:00Z"))));
    members.push(("context", Json::Array(vec![object(wire_field("e", "c", "2015-05-15T00:00:00Z"))])));
    members
}

#[test]
fn notifications_decode_part_by_part() {
    let n = decode_notification(&object(wire_notification(Some("t")))).unwrap();
    assert_eq!(n.token, "t");
    assert_eq!(n.current.write_time(), Timestamp::new(1431648001, 0));
    assert_eq!(n.previous.write_time(), Timestamp::new(1431648000, 0));
    assert_eq!(n.context.len(), 1);
    assert_eq!(n.context[0].name(), "c");
    assert_eq!(
        client_error(decode_notification(&object(wire_notification(None))).map(|_| ())),
        "Invalid response from server: notification token is not valid"
    );
    assert_eq!(
        client_error(
            decode_notification(&without(
                without_all(wire_notification(Some("t")), "context"),
                "current"
            ))
            .map(|_| ())
        ),
        "Invalid response from server: entity ID is not valid"
    );
    let mut members = wire_notification(Some("t"));
    members.retain(|(k, _)| *k != "previous");
    members.push(("previous", without(wire_field("e", "n", "2015-05-15T00:00:00Z"), "name")));
    assert_eq!(
        client_error(decode_notification(&object(members)).map(|_| ())),
        "Invalid response from server: name is not valid"
    );
    assert_eq!(
        client_error(
            decode_notification(&without(wire_notification(Some("t")), "context")).map(|_| ())
        ),
        "Invalid response from server: notification context is not valid"
    );
    let mut members = wire_notification(Some("t"));
    members.retain(|(k, _)| *k != "context");
    members.push((
        "context",
        Json::Array(vec![without(wire_field("e", "c", "2015-05-15T00:00:00Z"), "writeTime")]),
    ));
    assert_eq!(
        client_error(decode_notification(&object(members)).map(|_| ())),
        "Invalid response from server: writeTime is not valid"
    );
}

fn without_all(members: Vec<(&'static str, Json)>, key: &str) -> Vec<(&'static str, Json)> {
    members.into_iter().filter(|(k, _)| *k != key).collect()
}

#[test]
fn notification_lists_stop_at_the_first_bad_item() {
    let reply = |items: Vec<Json>| object(vec![("notifications", Json::Array(items))]);
    let good = || object(wire_notification(Some("t")));
    assert_eq!(read_notifications_reply(&reply(vec![good(), good()])).unwrap().len(), 2);
    assert_eq!(read_notifications_reply(&reply(vec![])).unwrap().len(), 0);
    assert_eq!(
        client_error(read_notifications_reply(&object(vec![])).map(|_| ())),
        "Invalid response from server: notifications is not valid"
    );
    assert_eq!(
        client_error(
            read_notifications_reply(&reply(vec![good(), object(wire_notification(None))]))
                .map(|_| ())
        ),
        "Invalid response from server: notification token is not valid"
    );
}

fn requests() -> Vec<DatabaseField> {
    vec![
        RawField::new("e1", "a").into_field(),
        RawField::new("e1", "b").into_field(),
        RawField::new("e2", "a").into_field(),
        RawField::new("e1", "b").into_field(),
    ]
}

fn read_item(id: &str, field: &str, value: &str, time: &str) -> Vec<(&'static str, Json)> {
    vec![
        ("id", text(id)),
        ("field", text(field)),
        ("value", wire(KINDS[0].1, text(value))),
        ("writeTime", object(vec![("raw", text(time))])),
        ("writerId", object(vec![("raw", text("writer"))])),
    ]
}

fn read_reply(items: Vec<Json>) -> Json {
    object(vec![("response", Json::Array(items))])
}

#[test]
fn a_read_reply_fills_in_the_first_matching_field() {
    let mut rs = requests();
    let reply = read_reply(vec![
        object(read_item("e1", "b", "x", "2015-05-15T00:00:00Z")),
        object(read_item("e2", "a", "y", "2015-05-15T00:00:01Z")),
    ]);
    assert!(take_read_reply(&mut rs, &reply).is_ok());
    assert!(rs[0].value().is_unspecified());
    assert_eq!(rs[1].value().as_str().unwrap(), "x");
    assert_eq!(rs[1].write_time(), Timestamp::new(1431648000, 0));
    assert_eq!(rs[1].writer_id(), "writer");
    assert_eq!(rs[2].value().as_str().unwrap(), "y");
    assert_eq!(rs[2].write_time(), Timestamp::new(1431648001, 0));
    assert!(rs[3].value().is_unspecified());
    assert_eq!(rs[3].writer_id(), "");
    assert!(take_read_reply(&mut rs, &read_reply(vec![])).is_ok());
}

#[test]
fn a_read_reply_stops_at_the_first_bad_item() {
    let mut rs = requests();
    let reply = read_reply(vec![
        object(read_item("e1", "a", "x", "2015-05-15T00:00:00Z")),
        object(read_item("e9", "a", "y", "2015-05-15T00:00:00Z")),
        object(read_item("e2", "a", "z", "2015-05-15T00:00:00Z")),
    ]);
    assert_eq!(
        client_error(take_read_reply(&mut rs, &reply)),
        "Invalid response from server: Field not found"
    );
    assert_eq!(rs[0].value().as_str().unwrap(), "x");
    assert!(rs[2].value().is_unspecified());
    let missing = "Invalid response from server: response is not valid";
    assert_eq!(client_error(take_read_reply(&mut rs, &object(vec![]))), missing);
    assert_eq!(client_error(take_read_reply(&mut rs, &object(vec![("response", text("r"))]))), missing);
}

#[test]
fn a_read_item_must_be_complete() {
    let check = |key: &str, replacement: Option<Json>, expected: &str| {
        let mut rs = requests();
        let mut members = read_item("e1", "a", "x", "2015-05-15T00:00:00Z");
        let at = members.iter().position(|(k, _)| *k == key).unwrap();
        match replacement {
            Some(j) => members[at].1 = j,
            None => {
                members.remove(at);
            }
        }
        assert_eq!(
            client_error(take_read_reply(&mut rs, &read_reply(vec![object(members)]))),
            expected
        );
        assert!(rs[0].value().is_unspecified());
    };
    check("id", None, "Invalid response from server: entity id is not valid");
    check("field", None, "Invalid response from server: field name is not valid");
    check("value", None, "Invalid response from server: value is not valid");
    check("value", Some(text("v")), "Invalid response from server: value is not valid");
    check("writeTime", None, "Invalid response from server: write time is not valid");
    check("writeTime", Some(text("t")), "Invalid response from server: write time is not valid");
    check("writeTime", Some(object(vec![])), "Invalid response from server: write time is not valid");
    check("writerId", None, "Invalid response from server: writer id is not valid");
    check(
        "writerId",
        Some(object(vec![("raw", Json::Null)])),
        "Invalid response from server: writer id is not valid",
    );
    check("value", Some(object(vec![])), "Invalid response from server: value type is not valid");
    let mut rs = requests();
    assert_eq!(
        client_error(take_read_reply(&mut rs, &read_reply(vec![Json::Null]))),
        "Invalid response from server: response is not an object"
    );
}

#[test]
fn a_read_item_with_a_bad_time_keeps_its_value() {
    let mut rs = requests();
    let item = object(read_item("e1", "a", "x", "not a time"));
    assert_eq!(
        client_error(take_read_reply(&mut rs, &read_reply(vec![item.duplicate()]))),
        "Invalid response from server: write time is not valid"
    );
    assert_eq!(rs[0].value().as_str().unwrap(), "x");
    assert_eq!(rs[0].writer_id(), "");
    let mut rs = requests();
    assert!(take_item(&mut rs, &item, Some(Timestamp::new(4, 5))).is_ok());
    assert_eq!(rs[0].write_time(), Timestamp::new(4, 5));
    assert_eq!(rs[0].writer_id(), "writer");
}

#[test]
fn requests_are_laid_out_as_the_service_expects() {
    assert_eq!(
        show(&get_entity_request("e1")),
        "{\"@type\":\"type.googleapis.com/qdb.WebConfigGetEntityRequest\",\"id\":\"e1\"}"
    );
    assert_eq!(
        show(&get_entities_request("Light")),
        "{\"@type\":\"type.googleapis.com/qdb.WebRuntimeGetEntitiesRequest\",\"entityType\":\"Light\"}"
    );
    assert_eq!(
        show(&get_notifications_request()),
        "{\"@type\":\"type.googleapis.com/qdb.WebRuntimeGetNotificationsRequest\"}"
    );
    assert_eq!(
        show(&get_unregister_request(&NotificationToken::from_text("tok"))),
        "{\"@type\":\"type.googleapis.com/qdb.WebRuntimeUnregisterNotificationRequest\",\"tokens\":[\"tok\"]}"
    );
    let config = NotificationConfig {
        entity_id: "e".to_string(),
        entity_type: "T".to_string(),
        field: "f".to_string(),
        notify_on_change: true,
        context: vec!["a".to_string(), "b".to_string()],
    };
    assert_eq!(
        show(&get_register_request(&config)),
        "{\"@type\":\"type.googleapis.com/qdb.WebRuntimeRegisterNotificationRequest\",\"requests\":[{\"id\":\"e\",\"type\":\"T\",\"field\":\"f\",\"notifyOnChange\":true,\"contextFields\":[\"a\",\"b\"]}]}"
    );
    let mut rs = vec![RawField::new("e1", "a").into_field(), RawField::new("e2", "b").into_field()];
    rs[0].set_i64_value(3);
    assert_eq!(
        show(&get_read_request(&rs)),
        "{\"@type\":\"type.googleapis.com/qdb.WebRuntimeDatabaseRequest\",\"requestType\":\"READ\",\"requests\":[{\"id\":\"e1\",\"field\":\"a\"},{\"id\":\"e2\",\"field\":\"b\"}]}"
    );
    assert_eq!(
        show(&get_write_request(&rs)),
        "{\"@type\":\"type.googleapis.com/qdb.WebRuntimeDatabaseRequest\",\"requestType\":\"WRITE\",\"requests\":[{\"id\":\"e1\",\"field\":\"a\",\"value\":{\"@type\":\"type.googleapis.com/qdb.Int\",\"raw\":3}},{\"id\":\"e2\",\"field\":\"b\",\"value\":null}]}"
    );
    assert_eq!(
        show(&get_read_request(&vec![])),
        "{\"@type\":\"type.googleapis.com/qdb.WebRuntimeDatabaseRequest\",\"requestType\":\"READ\",\"requests\":[]}"
    );
    assert_eq!(RequestKind::Read.type_tag(), RequestKind::Write.type_tag());
}

#[test]
fn session_follows_the_answers() {
    let mut s = Session::new();
    assert!(!s.connected());
    assert_eq!(client_error(s.connect(false)), "Invalid response from server");
    assert!(!s.connected());
    assert!(s.connect(true).is_ok());
    assert!(s.connected());
    s.begin_request();
    assert!(!s.connected());
    assert!(s.accept_answer(Some("AUTHENTICATED"), true).is_ok());
    assert!(s.connected());
    s.begin_request();
    assert_eq!(
        client_error(s.accept_answer(Some("AUTHENTICATED"), false)),
        "Invalid response from server: payload is not valid"
    );
    assert!(!s.connected());
    assert!(!s.auth_failure);
    s.begin_request();
    assert_eq!(client_error(s.accept_answer(Some("UNAUTHENTICATED"), true)), "Failed to authenticate");
    assert!(s.auth_failure);
    s.begin_request();
    assert!(s.accept_answer(Some("AUTHENTICATED"), true).is_ok());
    assert!(s.endpoint_reachable);
    assert!(!s.connected());
    assert!(s.disconnect());
    assert_eq!(s, Session::new());
    assert!(s.connect(true).is_ok());
    assert!(s.connected());
    assert_eq!(client_error(s.accept_answer(None, true)), "Failed to authenticate");
}

#[test]
fn only_the_exact_status_authenticates() {
    assert!(has_authenticated(Some("AUTHENTICATED")));
    assert!(!has_authenticated(Some("authenticated")));
    assert!(!has_authenticated(Some("AUTHENTICATED ")));
    assert!(!has_authenticated(Some("")));
    assert!(!has_authenticated(None));
}

fn answer(status: Option<&str>, payload: Option<Json>) -> Json {
    let mut members = vec![];
    if let Some(status) = status {
        members.push(("header", object(vec![("authenticationStatus", text(status))])));
    }
    if let Some(payload) = payload {
        members.push(("payload", payload));
    }
    object(members)
}

#[test]
fn the_protocol_wraps_requests_and_unwraps_answers() {
    let mut p = Protocol::new();
    assert!(!p.connected());
    assert_eq!(show(&p.begin_request(text("x"))), "{\"payload\":\"x\"}");
    assert_eq!(client_error(p.connect(text("id"))), "Invalid response from server");
    assert!(!p.connected());
    let identifier = object(vec![("clientId", text("c1")), ("payload", text("old")), ("n", Json::Integer(1))]);
    assert!(p.connect(identifier).is_ok());
    assert!(p.connected());
    assert_eq!(
        show(&p.begin_request(get_notifications_request())),
        "{\"clientId\":\"c1\",\"n\":1,\"payload\":{\"@type\":\"type.googleapis.com/qdb.WebRuntimeGetNotificationsRequest\"}}"
    );
    assert!(!p.connected());
    let good = answer(Some("AUTHENTICATED"), Some(text("p")));
    assert_eq!(show(p.accept_answer(&good).unwrap()), "\"p\"");
    assert!(p.connected());
    let _ = p.begin_request(Json::Null);
    assert_eq!(
        client_error(p.accept_answer(&answer(Some("AUTHENTICATED"), None)).map(|_| ())),
        "Invalid response from server: payload is not valid"
    );
    assert!(!p.connected());
    assert_eq!(
        client_error(p.accept_answer(&answer(None, Some(text("p")))).map(|_| ())),
        "Failed to authenticate"
    );
    assert_eq!(
        client_error(p.accept_answer(&answer(Some("NOPE"), Some(text("p")))).map(|_| ())),
        "Failed to authenticate"
    );
    assert_eq!(client_error(p.accept_answer(&Json::Null).map(|_| ())), "Failed to authenticate");
    assert!(p.session.auth_failure);
    assert!(p.accept_answer(&good).is_ok());
    assert!(!p.connected());
    assert!(p.disconnect());
    assert!(!p.session.auth_failure);
    assert_eq!(show(&p.begin_request(text("y"))), "{\"clientId\":\"c1\",\"n\":1,\"payload\":\"y\"}");
}

#[test]
fn console_stamps_are_rfc_3339_with_milliseconds() {
    assert_eq!(Console::stamp(&Timestamp::new(1431648000, 453_829_000)), "2015-05-15T00:00:00.453Z");
    assert_eq!(Console::stamp(&Timestamp::new(0, 0)), "1970-01-01T00:00:00.000Z");
    assert_eq!(Console::stamp(&Timestamp::new(-1, 999_000_000)), "1969-12-31T23:59:59.999Z");
    assert_eq!(Console::stamp(&Timestamp::new(i64::MAX, 0)), "");
    assert_eq!(Console::stamp(&Timestamp::new(0, 2_000_000_000)), "");
}
