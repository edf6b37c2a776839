//! Change notifications: the filter that asks for them, the token the remote
//! service answers with, and the event it later delivers.

use vstd::prelude::*;
use crate::schema::field::{DatabaseField, FieldView};

verus! {

/// The filter that identifies a class of change events.
///
/// Two filters are the same when all five parts are equal.
#[derive(Debug, Clone, PartialEq, Eq, Hash)]
pub struct NotificationConfig {
    pub entity_id: String,
    pub entity_type: String,
    pub field: String,
    pub notify_on_change: bool,
    pub context: Vec<String>,
}

/// Mathematical content of a [`NotificationConfig`].
pub ghost struct ConfigView {
    pub entity_id: Seq<char>,
    pub entity_type: Seq<char>,
    pub field: Seq<char>,
    pub notify_on_change: bool,
    pub context: Seq<Seq<char>>,
}

impl View for NotificationConfig {
    type V = ConfigView;

    open spec fn view(&self) -> ConfigView {
        ConfigView {
            entity_id: self.entity_id@,
            entity_type: self.entity_type@,
            field: self.field@,
            notify_on_change: self.notify_on_change,
            context: texts(self.context@),
        }
    }
}

/// The texts of a list of strings, in order.
pub open spec fn texts(v: Seq<String>) -> Seq<Seq<char>> {
    Seq::new(v.len(), |i: int| v[i]@)
}

/// Compares two lists of strings element by element.
fn same_strings(a: &Vec<String>, b: &Vec<String>) -> (r: bool)
    ensures
        r == (texts(a@) == texts(b@)),
{
    if a.len() != b.len() {
        assert(texts(a@).len() != texts(b@).len());
        return false;
    }
    let mut i: usize = 0;
    while i < a.len()
        invariant
            i <= a@.len(),
            a@.len() == b@.len(),
            forall|j: int| 0 <= j < i ==> a@[j]@ == b@[j]@,
        decreases a@.len() - i,
    {
        if a[i] != b[i] {
            assert(texts(a@)[i as int] != texts(b@)[i as int]);
            return false;
        }
        i = i + 1;
    }
    assert(texts(a@) =~= texts(b@));
    true
}

/// Copies a list of strings.
fn copy_strings(a: &Vec<String>) -> (r: Vec<String>)
    ensures
        texts(r@) == texts(a@),
{
    let mut r: Vec<String> = Vec::new();
    let mut i: usize = 0;
    while i < a.len()
        invariant
            i <= a@.len(),
            r@.len() == i,
            forall|j: int| 0 <= j < i ==> r@[j]@ == a@[j]@,
        decreases a@.len() - i,
    {
        r.push(a[i].clone());
        i = i + 1;
    }
    assert(texts(r@) =~= texts(a@));
    r
}

impl NotificationConfig {
    /// Whether two filters are structurally equal.
    pub fn same(&self, other: &NotificationConfig) -> (b: bool)
        ensures
            b == (self@ == other@),
    {
        self.entity_id == other.entity_id && self.entity_type == other.entity_type && self.field
            == other.field && self.notify_on_change == other.notify_on_change && same_strings(
            &self.context,
            &other.context,
        )
    }

    /// A copy of the filter.
    pub fn duplicate(&self) -> (c: NotificationConfig)
        ensures
            c@ == self@,
    {
        NotificationConfig {
            entity_id: self.entity_id.clone(),
            entity_type: self.entity_type.clone(),
            field: self.field.clone(),
            notify_on_change: self.notify_on_change,
            context: copy_strings(&self.context),
        }
    }
}

/// The handle the remote service assigns to one accepted subscription.
#[derive(Debug, Clone, PartialEq, Eq, Hash)]
pub struct NotificationToken(pub String);

impl View for NotificationToken {
    type V = Seq<char>;

    open spec fn view(&self) -> Seq<char> {
        self.0@
    }
}

impl From<String> for NotificationToken {
    fn from(s: String) -> (t: NotificationToken) {
        NotificationToken(s)
    }
}

impl vstd::std_specs::convert::FromSpecImpl<String> for NotificationToken {
    open spec fn obeys_from_spec() -> bool {
        true
    }

    open spec fn from_spec(s: String) -> NotificationToken {
        NotificationToken(s)
    }
}

impl NotificationToken {
    /// The token with the given text.
    pub fn from_string(s: String) -> (t: NotificationToken)
        ensures
            t@ == s@,
    {
        NotificationToken(s)
    }

    /// The token with the given text.
    pub fn from_text(s: &str) -> (t: NotificationToken)
        ensures
            t@ == s@,
    {
        NotificationToken(s.to_owned())
    }

    /// The token's text.
    pub fn to_text(&self) -> (s: String)
        ensures
            s@ == self@,
    {
        self.0.clone()
    }

    /// Whether two tokens have the same text.
    pub fn same(&self, other: &NotificationToken) -> (b: bool)
        ensures
            b == (self@ == other@),
    {
        self.0 == other.0
    }

    /// A copy of the token.
    pub fn duplicate(&self) -> (t: NotificationToken)
        ensures
            t@ == self@,
    {
        NotificationToken(self.0.clone())
    }
}

/// One change event, as the transport delivers it.
#[derive(Debug)]
pub struct DatabaseNotification {
    pub token: String,
    pub current: DatabaseField,
    pub previous: DatabaseField,
    pub context: Vec<DatabaseField>,
}

/// Mathematical content of a [`DatabaseNotification`].
pub ghost struct NotificationView {
    pub token: Seq<char>,
    pub current: FieldView,
    pub previous: FieldView,
    pub context: Seq<FieldView>,
}

impl View for DatabaseNotification {
    type V = NotificationView;

    open spec fn view(&self) -> NotificationView {
        NotificationView {
            token: self.token@,
            current: self.current@,
            previous: self.previous@,
            context: field_views(self.context@),
        }
    }
}

/// The contents of a list of fields, in order.
pub open spec fn field_views(v: Seq<DatabaseField>) -> Seq<FieldView> {
    Seq::new(v.len(), |i: int| v[i]@)
}

/// Copies a list of fields.
fn copy_fields(a: &Vec<DatabaseField>) -> (r: Vec<DatabaseField>)
    ensures
        field_views(r@) == field_views(a@),
{
    let mut r: Vec<DatabaseField> = Vec::new();
    let mut i: usize = 0;
    while i < a.len()
        invariant
            i <= a@.len(),
            r@.len() == i,
            forall|j: int| 0 <= j < i ==> r@[j]@ == a@[j]@,
        decreases a@.len() - i,
    {
        r.push(a[i].clone());
        i = i + 1;
    }
    assert(field_views(r@) =~= field_views(a@));
    r
}

impl Clone for DatabaseNotification {
    fn clone(&self) -> (n: DatabaseNotification)
        ensures
            n@ == self@,
    {
        DatabaseNotification {
            token: self.token.clone(),
            current: self.current.clone(),
            previous: self.previous.clone(),
            context: copy_fields(&self.context),
        }
    }
}

} // verus!
