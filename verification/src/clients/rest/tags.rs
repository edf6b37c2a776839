//! The type tags of the wire format.
//!
//! Every value on the wire names its kind by a type tag. The tags are fixed:
//! a kind is written with its tag and a tag is read as its kind, so a kind
//! comes back from the wire as it went.

use vstd::prelude::*;
use crate::schema::value::ValueKind;

verus! {

/// The tag of each kind of value; an unspecified value has none.
pub open spec fn tag_of(kind: ValueKind) -> Option<Seq<char>> {
    match kind {
        ValueKind::Unspecified => None,
        ValueKind::String => Some("type.googleapis.com/qdb.String"@),
        ValueKind::Integer => Some("type.googleapis.com/qdb.Int"@),
        ValueKind::Float => Some("type.googleapis.com/qdb.Float"@),
        ValueKind::Boolean => Some("type.googleapis.com/qdb.Bool"@),
        ValueKind::EntityReference => Some("type.googleapis.com/qdb.EntityReference"@),
        ValueKind::Timestamp => Some("type.googleapis.com/qdb.Timestamp"@),
        ValueKind::ConnectionState => Some("type.googleapis.com/qdb.ConnectionState"@),
        ValueKind::GarageDoorState => Some("type.googleapis.com/qdb.GarageDoorState"@),
    }
}

/// The kind a tag names, if it names one.
pub open spec fn kind_of(tag: Seq<char>) -> Option<ValueKind> {
    if tag == "type.googleapis.com/qdb.String"@ {
        Some(ValueKind::String)
    } else if tag == "type.googleapis.com/qdb.Int"@ {
        Some(ValueKind::Integer)
    } else if tag == "type.googleapis.com/qdb.Float"@ {
        Some(ValueKind::Float)
    } else if tag == "type.googleapis.com/qdb.Bool"@ {
        Some(ValueKind::Boolean)
    } else if tag == "type.googleapis.com/qdb.EntityReference"@ {
        Some(ValueKind::EntityReference)
    } else if tag == "type.googleapis.com/qdb.Timestamp"@ {
        Some(ValueKind::Timestamp)
    } else if tag == "type.googleapis.com/qdb.ConnectionState"@ {
        Some(ValueKind::ConnectionState)
    } else if tag == "type.googleapis.com/qdb.GarageDoorState"@ {
        Some(ValueKind::GarageDoorState)
    } else {
        None
    }
}

/// Whether two texts are the same.
pub fn same_text(a: &str, b: &str) -> (r: bool)
    ensures
        r == (a@ == b@),
{
    a.to_owned() == b.to_owned()
}

/// The tag of a kind of value.
pub fn type_tag(kind: ValueKind) -> (tag: Option<&'static str>)
    ensures
        match tag {
            Some(t) => tag_of(kind) == Some(t@),
            None => tag_of(kind) is None,
        },
{
    match kind {
        ValueKind::Unspecified => None,
        ValueKind::String => Some("type.googleapis.com/qdb.String"),
        ValueKind::Integer => Some("type.googleapis.com/qdb.Int"),
        ValueKind::Float => Some("type.googleapis.com/qdb.Float"),
        ValueKind::Boolean => Some("type.googleapis.com/qdb.Bool"),
        ValueKind::EntityReference => Some("type.googleapis.com/qdb.EntityReference"),
        ValueKind::Timestamp => Some("type.googleapis.com/qdb.Timestamp"),
        ValueKind::ConnectionState => Some("type.googleapis.com/qdb.ConnectionState"),
        ValueKind::GarageDoorState => Some("type.googleapis.com/qdb.GarageDoorState"),
    }
}

/// The kind that a tag names, if it names one.
pub fn tagged_kind(tag: &str) -> (kind: Option<ValueKind>)
    ensures
        kind == kind_of(tag@),
{
    if same_text(tag, "type.googleapis.com/qdb.String") {
        Some(ValueKind::String)
    } else if same_text(tag, "type.googleapis.com/qdb.Int") {
        Some(ValueKind::Integer)
    } else if same_text(tag, "type.googleapis.com/qdb.Float") {
        Some(ValueKind::Float)
    } else if same_text(tag, "type.googleapis.com/qdb.Bool") {
        Some(ValueKind::Boolean)
    } else if same_text(tag, "type.googleapis.com/qdb.EntityReference") {
        Some(ValueKind::EntityReference)
    } else if same_text(tag, "type.googleapis.com/qdb.Timestamp") {
        Some(ValueKind::Timestamp)
    } else if same_text(tag, "type.googleapis.com/qdb.ConnectionState") {
        Some(ValueKind::ConnectionState)
    } else if same_text(tag, "type.googleapis.com/qdb.GarageDoorState") {
        Some(ValueKind::GarageDoorState)
    } else {
        None
    }
}

/// The tags round-trip: the tag of a kind names that kind and no other, and
/// no tag names the unspecified kind.
pub proof fn lemma_tags_round_trip(kind: ValueKind)
    ensures
        kind != ValueKind::Unspecified ==> tag_of(kind) is Some && kind_of(tag_of(kind).unwrap())
            == Some(kind),
        forall|tag: Seq<char>| kind_of(tag) != Some(ValueKind::Unspecified),
        forall|tag: Seq<char>| kind_of(tag) == Some(kind) ==> tag_of(kind) == Some(tag),
{
    reveal_strlit("type.googleapis.com/qdb.String");
    reveal_strlit("type.googleapis.com/qdb.Int");
    reveal_strlit("type.googleapis.com/qdb.Float");
    reveal_strlit("type.googleapis.com/qdb.Bool");
    reveal_strlit("type.googleapis.com/qdb.EntityReference");
    reveal_strlit("type.googleapis.com/qdb.Timestamp");
    reveal_strlit("type.googleapis.com/qdb.ConnectionState");
    reveal_strlit("type.googleapis.com/qdb.GarageDoorState");
    let e = "type.googleapis.com/qdb.EntityReference"@;
    let c = "type.googleapis.com/qdb.ConnectionState"@;
    let g = "type.googleapis.com/qdb.GarageDoorState"@;
    assert("type.googleapis.com/qdb.String"@.len() == 30);
    assert("type.googleapis.com/qdb.Int"@.len() == 27);
    assert("type.googleapis.com/qdb.Float"@.len() == 29);
    assert("type.googleapis.com/qdb.Bool"@.len() == 28);
    assert("type.googleapis.com/qdb.Timestamp"@.len() == 33);
    assert(e.len() == 39 && c.len() == 39 && g.len() == 39);
    assert(e[24] == 'E' && c[24] == 'C' && g[24] == 'G');
}

} // verus!
