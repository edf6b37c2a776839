//! A named, typed, addressable object of the remote database.

use vstd::prelude::*;
use crate::schema::field::{DatabaseField, RawField};

verus! {

/// An entity: its identifier, its type and its display name.
#[derive(Debug, Clone, PartialEq, Eq, Hash)]
pub struct Entity {
    pub id: String,
    pub entity_type: String,
    pub name: String,
}

/// Mathematical content of an [`Entity`].
pub ghost struct EntityView {
    pub id: Seq<char>,
    pub entity_type: Seq<char>,
    pub name: Seq<char>,
}

impl View for Entity {
    type V = EntityView;

    open spec fn view(&self) -> EntityView {
        EntityView { id: self.id@, entity_type: self.entity_type@, name: self.name@ }
    }
}

impl Entity {
    /// The entity with the given identifier, type and name.
    pub fn new(id: &str, entity_type: &str, name: &str) -> (e: Entity)
        ensures
            e@ == (EntityView { id: id@, entity_type: entity_type@, name: name@ }),
    {
        Entity { id: id.to_owned(), entity_type: entity_type.to_owned(), name: name.to_owned() }
    }

    /// The entity's identifier.
    pub fn id(&self) -> (s: String)
        ensures
            s@ == self@.id,
    {
        self.id.clone()
    }

    /// The entity's type.
    pub fn entity_type(&self) -> (s: String)
        ensures
            s@ == self@.entity_type,
    {
        self.entity_type.clone()
    }

    /// The entity's display name.
    pub fn name(&self) -> (s: String)
        ensures
            s@ == self@.name,
    {
        self.name.clone()
    }

    /// Replaces the identifier and nothing else.
    pub fn update_id(&mut self, id: &str)
        ensures
            final(self)@ == (EntityView { id: id@, ..old(self)@ }),
    {
        self.id = id.to_owned();
    }

    /// Replaces the type and nothing else.
    pub fn update_entity_type(&mut self, entity_type: &str)
        ensures
            final(self)@ == (EntityView { entity_type: entity_type@, ..old(self)@ }),
    {
        self.entity_type = entity_type.to_owned();
    }

    /// Replaces the display name and nothing else.
    pub fn update_name(&mut self, name: &str)
        ensures
            final(self)@ == (EntityView { name: name@, ..old(self)@ }),
    {
        self.name = name.to_owned();
    }

    /// A copy of the entity.
    pub fn duplicate(&self) -> (e: Entity)
        ensures
            e@ == self@,
    {
        Entity { id: self.id.clone(), entity_type: self.entity_type.clone(), name: self.name.clone() }
    }

    /// Whether two entities have the same identifier, type and name.
    pub fn same(&self, other: &Entity) -> (b: bool)
        ensures
            b == (self@ == other@),
    {
        self.id == other.id && self.entity_type == other.entity_type && self.name == other.name
    }

    /// A fresh, unread field of this entity with the given name: its value is
    /// unspecified and its writer is empty.
    pub fn field(&self, name: &str) -> (f: DatabaseField)
        ensures
            f@.entity_id == self@.id,
            f@.name == name@,
            f@.value == crate::schema::value::ValueView::Unspecified,
            f@.writer_id == Seq::<char>::empty(),
    {
        DatabaseField::new(RawField::new(self.id().as_str(), name))
    }
}

} // verus!
