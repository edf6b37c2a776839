//! JSON documents, as far as the protocol builds and reads them.
//!
//! A number that is no 64-bit integer, and every number that was received,
//! is held as the IEEE 754 bit pattern of a float.

use vstd::prelude::*;
use crate::clients::rest::tags::same_text;

verus! {

/// A JSON document.
#[derive(Debug)]
pub enum Json {
    Null,
    Bool(bool),
    /// A number written from a 64-bit integer.
    Integer(i64),
    /// A number as a float, by its bit pattern.
    Float(u64),
    Text(String),
    Array(Vec<Json>),
    /// The members of an object, in order, each under its key.
    Object(Vec<(String, Json)>),
}

/// Mathematical content of a JSON document.
pub ghost enum JsonView {
    Null,
    Bool(bool),
    Integer(i64),
    Float(u64),
    Text(Seq<char>),
    Array(Seq<JsonView>),
    Object(Seq<(Seq<char>, JsonView)>),
}

/// The content of a document.
pub open spec fn json_view(j: Json) -> JsonView
    decreases j,
{
    match j {
        Json::Null => JsonView::Null,
        Json::Bool(b) => JsonView::Bool(b),
        Json::Integer(i) => JsonView::Integer(i),
        Json::Float(f) => JsonView::Float(f),
        Json::Text(s) => JsonView::Text(s@),
        Json::Array(items) => JsonView::Array(
            Seq::new(
                items@.len(),
                |i: int|
                    if 0 <= i < items@.len() {
                        json_view(items@[i])
                    } else {
                        JsonView::Null
                    },
            ),
        ),
        Json::Object(entries) => JsonView::Object(
            Seq::new(
                entries@.len(),
                |i: int|
                    if 0 <= i < entries@.len() {
                        (entries@[i].0@, json_view(entries@[i].1))
                    } else {
                        (Seq::empty(), JsonView::Null)
                    },
            ),
        ),
    }
}

impl View for Json {
    type V = JsonView;

    open spec fn view(&self) -> JsonView {
        json_view(*self)
    }
}

/// The contents of a list of documents, in order.
pub open spec fn documents(items: Seq<Json>) -> Seq<JsonView> {
    Seq::new(items.len(), |i: int| items[i]@)
}

/// The contents of a list of members, in order.
pub open spec fn members(entries: Seq<(String, Json)>) -> Seq<(Seq<char>, JsonView)> {
    Seq::new(entries.len(), |i: int| (entries[i].0@, entries[i].1@))
}

/// The content of a document that may be missing.
pub open spec fn content(j: Option<&Json>) -> Option<JsonView> {
    match j {
        Some(j) => Some(j@),
        None => None,
    }
}

/// The first of the members that stands under the key, if one does.
pub open spec fn first_under(entries: Seq<(Seq<char>, JsonView)>, key: Seq<char>) -> Option<
    JsonView,
>
    decreases entries.len(),
{
    if entries.len() == 0 {
        None
    } else if entries.first().0 == key {
        Some(entries.first().1)
    } else {
        first_under(entries.drop_first(), key)
    }
}

impl JsonView {
    /// The member of an object under the key; nothing for an object without
    /// one and for what is no object.
    pub open spec fn member(self, key: Seq<char>) -> Option<JsonView> {
        match self {
            JsonView::Object(entries) => first_under(entries, key),
            _ => None,
        }
    }

    /// The text of a string; nothing for what is no string.
    pub open spec fn text(self) -> Option<Seq<char>> {
        match self {
            JsonView::Text(s) => Some(s),
            _ => None,
        }
    }

    /// The items of an array; nothing for what is no array.
    pub open spec fn items(self) -> Option<Seq<JsonView>> {
        match self {
            JsonView::Array(items) => Some(items),
            _ => None,
        }
    }
}

/// The member under the key of a document that may be missing.
pub open spec fn member_at(j: Option<JsonView>, key: Seq<char>) -> Option<JsonView> {
    match j {
        Some(j) => j.member(key),
        None => None,
    }
}

/// The text of a document that may be missing.
pub open spec fn text_at(j: Option<JsonView>) -> Option<Seq<char>> {
    match j {
        Some(j) => j.text(),
        None => None,
    }
}

/// The document as an object, if it is one.
pub open spec fn object_at(j: Option<JsonView>) -> Option<JsonView> {
    match j {
        Some(j) => if j is Object {
            Some(j)
        } else {
            None
        },
        None => None,
    }
}

/// The items of a document that may be missing.
pub open spec fn items_at(j: Option<JsonView>) -> Option<Seq<JsonView>> {
    match j {
        Some(j) => j.items(),
        None => None,
    }
}

/// An array's content is the content of its items.
pub proof fn lemma_array(items: Vec<Json>)
    ensures
        Json::Array(items)@ == JsonView::Array(documents(items@)),
{
    let v = json_view(Json::Array(items));
    assert(v->Array_0.len() == items@.len());
    assert(v->Array_0 =~= documents(items@));
}

/// An object's content is the content of its members.
pub proof fn lemma_object(entries: Vec<(String, Json)>)
    ensures
        Json::Object(entries)@ == JsonView::Object(members(entries@)),
{
    let v = json_view(Json::Object(entries));
    assert(v->Object_0.len() == entries@.len());
    assert(v->Object_0 =~= members(entries@));
}

impl Json {
    /// A string.
    pub fn text(s: &str) -> (j: Json)
        ensures
            j@ == JsonView::Text(s@),
    {
        Json::Text(s.to_owned())
    }

    /// An array of the items.
    pub fn array(items: Vec<Json>) -> (j: Json)
        ensures
            j@ == JsonView::Array(documents(items@)),
    {
        proof {
            lemma_array(items);
        }
        Json::Array(items)
    }

    /// An object of the members.
    pub fn object(entries: Vec<(String, Json)>) -> (j: Json)
        ensures
            j@ == JsonView::Object(members(entries@)),
    {
        proof {
            lemma_object(entries);
        }
        Json::Object(entries)
    }

    /// Puts one more member behind the members of an object in the making.
    pub fn push_member(entries: &mut Vec<(String, Json)>, key: &str, value: Json)
        ensures
            members(final(entries)@) == members(old(entries)@).push((key@, value@)),
    {
        entries.push((key.to_owned(), value));
        assert(members(entries@) =~= members(old(entries)@).push((key@, value@)));
    }

    /// Puts one more item behind the items of an array in the making.
    pub fn push_item(items: &mut Vec<Json>, item: Json)
        ensures
            documents(final(items)@) == documents(old(items)@).push(item@),
    {
        items.push(item);
        assert(documents(items@) =~= documents(old(items)@).push(item@));
    }

    /// Whether the document is an object.
    pub fn is_object(&self) -> (b: bool)
        ensures
            b == (self@ is Object),
    {
        match self {
            Json::Object(_) => true,
            _ => false,
        }
    }

    /// The member of an object under the key.
    pub fn member(&self, key: &str) -> (r: Option<&Json>)
        ensures
            content(r) == self@.member(key@),
    {
        match self {
            Json::Object(entries) => {
                proof {
                    lemma_object(*entries);
                }
                let ghost all = members(entries@);
                let mut i: usize = 0;
                assert(all.skip(0) =~= all);
                while i < entries.len()
                    invariant
                        i <= entries@.len(),
                        all == members(entries@),
                        self@ == JsonView::Object(all),
                        first_under(all.skip(i as int), key@) == first_under(all, key@),
                    decreases entries@.len() - i,
                {
                    proof {
                        assert(all.skip(i as int).first() == all[i as int]);
                        assert(all.skip(i as int).drop_first() =~= all.skip(i + 1));
                    }
                    if same_text(entries[i].0.as_str(), key) {
                        assert(all[i as int] == (entries@[i as int].0@, entries@[i as int].1@));
                        return Some(&entries[i].1);
                    }
                    i = i + 1;
                }
                None
            },
            _ => None,
        }
    }

    /// The text of a string.
    pub fn as_text(&self) -> (r: Option<&String>)
        ensures
            match r {
                Some(s) => self@.text() == Some(s@),
                None => self@.text() is None,
            },
    {
        match self {
            Json::Text(s) => Some(s),
            _ => None,
        }
    }

    /// The items of an array.
    pub fn as_array(&self) -> (r: Option<&Vec<Json>>)
        ensures
            match r {
                Some(items) => self@.items() == Some(documents(items@)),
                None => self@.items() is None,
            },
    {
        match self {
            Json::Array(items) => {
                proof {
                    lemma_array(*items);
                }
                Some(items)
            },
            _ => None,
        }
    }

    /// A copy of the document.
    pub fn duplicate(&self) -> (j: Json)
        ensures
            j@ == self@,
        decreases self,
    {
        match self {
            Json::Null => Json::Null,
            Json::Bool(b) => Json::Bool(*b),
            Json::Integer(i) => Json::Integer(*i),
            Json::Float(f) => Json::Float(*f),
            Json::Text(s) => Json::Text(s.clone()),
            Json::Array(items) => {
                let mut copy: Vec<Json> = Vec::new();
                let mut i: usize = 0;
                while i < items.len()
                    invariant
                        i <= items@.len(),
                        *self == Json::Array(*items),
                        copy@.len() == i,
                        forall|k: int| 0 <= k < i ==> copy@[k]@ == items@[k]@,
                    decreases items@.len() - i,
                {
                    proof {
                        broadcast use vstd::std_specs::vec::axiom_vec_index_decreases;

                        assert(decreases_to!(*self => self->Array_0));
                        assert(decreases_to!(self->Array_0 => self->Array_0[i as int]));
                    }
                    copy.push(items[i].duplicate());
                    i = i + 1;
                }
                proof {
                    lemma_array(*items);
                    assert(documents(copy@) =~= documents(items@));
                }
                Json::array(copy)
            },
            Json::Object(entries) => {
                let mut copy: Vec<(String, Json)> = Vec::new();
                let mut i: usize = 0;
                while i < entries.len()
                    invariant
                        i <= entries@.len(),
                        *self == Json::Object(*entries),
                        copy@.len() == i,
                        forall|k: int|
                            0 <= k < i ==> copy@[k].0@ == entries@[k].0@ && copy@[k].1@
                                == entries@[k].1@,
                    decreases entries@.len() - i,
                {
                    proof {
                        broadcast use vstd::std_specs::vec::axiom_vec_index_decreases;

                        assert(decreases_to!(*self => self->Object_0));
                        assert(decreases_to!(self->Object_0 => self->Object_0[i as int]));
                        assert(decreases_to!(self->Object_0[i as int] => self->Object_0[i as int].1));
                    }
                    copy.push((entries[i].0.clone(), entries[i].1.duplicate()));
                    i = i + 1;
                }
                proof {
                    lemma_object(*entries);
                    assert(members(copy@) =~= members(entries@));
                }
                Json::object(copy)
            },
        }
    }
}

/// The member under the key of a document that may be missing.
pub fn member_of<'a>(j: Option<&'a Json>, key: &str) -> (r: Option<&'a Json>)
    ensures
        content(r) == member_at(content(j), key@),
{
    match j {
        Some(j) => j.member(key),
        None => None,
    }
}

/// The text of a document that may be missing.
pub fn text_of<'a>(j: Option<&'a Json>) -> (r: Option<&'a String>)
    ensures
        match r {
            Some(s) => text_at(content(j)) == Some(s@),
            None => text_at(content(j)) is None,
        },
{
    match j {
        Some(j) => j.as_text(),
        None => None,
    }
}

/// The document as an object, if it is one.
pub fn object_of<'a>(j: Option<&'a Json>) -> (r: Option<&'a Json>)
    ensures
        content(r) == object_at(content(j)),
{
    match j {
        Some(j) => if j.is_object() {
            Some(j)
        } else {
            None
        },
        None => None,
    }
}

/// The items of a document that may be missing.
pub fn items_of<'a>(j: Option<&'a Json>) -> (r: Option<&'a Vec<Json>>)
    ensures
        match r {
            Some(items) => items_at(content(j)) == Some(documents(items@)),
            None => items_at(content(j)) is None,
        },
{
    match j {
        Some(j) => j.as_array(),
        None => None,
    }
}

} // verus!
