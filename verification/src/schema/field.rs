//! A named, typed, timestamped value attached to an entity.
//!
//! A field is addressed by the identifier of its entity and its own name.
//! Reading fills in its value, write time and writer.

use vstd::prelude::*;
use crate::schema::time::Timestamp;
use crate::schema::value::{DatabaseValue, RawValue, ValueView};

verus! {

/// The parts of a field, all of them open.
#[derive(Debug)]
pub struct RawField {
    pub entity_id: String,
    pub name: String,
    pub value: DatabaseValue,
    pub write_time: Timestamp,
    pub writer_id: String,
}

/// Mathematical content of a field.
pub ghost struct FieldView {
    pub entity_id: Seq<char>,
    pub name: Seq<char>,
    pub value: ValueView,
    pub write_time: Timestamp,
    pub writer_id: Seq<char>,
}

impl View for RawField {
    type V = FieldView;

    open spec fn view(&self) -> FieldView {
        FieldView {
            entity_id: self.entity_id@,
            name: self.name@,
            value: self.value@,
            write_time: self.write_time,
            writer_id: self.writer_id@,
        }
    }
}

impl FieldView {
    /// What a field that was never read looks like: an unspecified value and
    /// no writer. Its write time is the moment it was made.
    pub open spec fn is_fresh(self, entity_id: Seq<char>, name: Seq<char>) -> bool {
        &&& self.entity_id == entity_id
        &&& self.name == name
        &&& self.value == ValueView::Unspecified
        &&& self.writer_id == Seq::<char>::empty()
    }
}

impl RawField {
    /// The identifier of the entity the field belongs to.
    pub fn entity_id(&self) -> (s: String)
        ensures
            s@ == self@.entity_id,
    {
        self.entity_id.clone()
    }

    /// The field's name.
    pub fn name(&self) -> (s: String)
        ensures
            s@ == self@.name,
    {
        self.name.clone()
    }

    /// A copy of the field's value.
    pub fn value(&self) -> (v: DatabaseValue)
        ensures
            v@ == self@.value,
    {
        self.value.clone()
    }

    /// When the value was written.
    pub fn write_time(&self) -> (t: Timestamp)
        ensures
            t == self@.write_time,
    {
        self.write_time
    }

    /// Who wrote the value.
    pub fn writer_id(&self) -> (s: String)
        ensures
            s@ == self@.writer_id,
    {
        self.writer_id.clone()
    }

    /// Replaces the entity identifier and nothing else.
    pub fn update_entity_id(&mut self, entity_id: &str)
        ensures
            final(self)@ == (FieldView { entity_id: entity_id@, ..old(self)@ }),
    {
        self.entity_id = entity_id.to_owned();
    }

    /// Replaces the value and nothing else.
    pub fn update_value(&mut self, value: DatabaseValue)
        ensures
            final(self)@ == (FieldView { value: value@, ..old(self)@ }),
    {
        self.value = value;
    }

    /// Replaces the write time and nothing else.
    pub fn update_write_time(&mut self, write_time: Timestamp)
        ensures
            final(self)@ == (FieldView { write_time: write_time, ..old(self)@ }),
    {
        self.write_time = write_time;
    }

    /// Replaces the writer and nothing else.
    pub fn update_writer_id(&mut self, writer_id: &str)
        ensures
            final(self)@ == (FieldView { writer_id: writer_id@, ..old(self)@ }),
    {
        self.writer_id = writer_id.to_owned();
    }

    /// Replaces the name and nothing else.
    pub fn update_name(&mut self, name: &str)
        ensures
            final(self)@ == (FieldView { name: name@, ..old(self)@ }),
    {
        self.name = name.to_owned();
    }

    /// A fresh field: unspecified value, no writer, made now.
    pub fn new(entity_id: &str, field: &str) -> (f: RawField)
        ensures
            f@.is_fresh(entity_id@, field@),
    {
        RawField {
            entity_id: entity_id.to_owned(),
            name: field.to_owned(),
            value: DatabaseValue::new(RawValue::Unspecified),
            write_time: Timestamp::now(),
            writer_id: String::new(),
        }
    }

    /// A field that holds `value`, with no writer, made now.
    pub fn new_with_value(entity_id: &str, field: &str, value: RawValue) -> (f: RawField)
        ensures
            f@.entity_id == entity_id@,
            f@.name == field@,
            f@.value == value@,
            f@.writer_id == Seq::<char>::empty(),
    {
        RawField {
            entity_id: entity_id.to_owned(),
            name: field.to_owned(),
            value: DatabaseValue::new(value),
            write_time: Timestamp::now(),
            writer_id: String::new(),
        }
    }

    /// The field as a [`DatabaseField`].
    pub fn into_field(self) -> (f: DatabaseField)
        ensures
            f@ == self@,
    {
        DatabaseField::new(self)
    }

    /// A copy of the field.
    pub fn duplicate(&self) -> (f: RawField)
        ensures
            f@ == self@,
    {
        RawField {
            entity_id: self.entity_id.clone(),
            name: self.name.clone(),
            value: self.value.clone(),
            write_time: self.write_time,
            writer_id: self.writer_id.clone(),
        }
    }
}

/// A field as the database hands it out: one owner, changed in place.
#[derive(Debug)]
pub struct DatabaseField {
    raw: RawField,
}

impl View for DatabaseField {
    type V = FieldView;

    closed spec fn view(&self) -> FieldView {
        self.raw@
    }
}

impl DatabaseField {
    /// Wraps a raw field.
    pub fn new(field: RawField) -> (f: DatabaseField)
        ensures
            f@ == field@,
    {
        DatabaseField { raw: field }
    }

    /// The raw field held.
    pub fn into_raw(self) -> (f: RawField)
        ensures
            f@ == self@,
    {
        self.raw
    }

    /// A copy of the field.
    pub fn clone(&self) -> (f: DatabaseField)
        ensures
            f@ == self@,
    {
        DatabaseField { raw: self.raw.duplicate() }
    }

    /// The identifier of the entity the field belongs to.
    pub fn entity_id(&self) -> (s: String)
        ensures
            s@ == self@.entity_id,
    {
        self.raw.entity_id()
    }

    /// The field's name.
    pub fn name(&self) -> (s: String)
        ensures
            s@ == self@.name,
    {
        self.raw.name()
    }

    /// A copy of the field's value.
    pub fn value(&self) -> (v: DatabaseValue)
        ensures
            v@ == self@.value,
    {
        self.raw.value()
    }

    /// When the value was written.
    pub fn write_time(&self) -> (t: Timestamp)
        ensures
            t == self@.write_time,
    {
        self.raw.write_time()
    }

    /// Who wrote the value.
    pub fn writer_id(&self) -> (s: String)
        ensures
            s@ == self@.writer_id,
    {
        self.raw.writer_id()
    }

    /// Replaces the entity identifier and nothing else.
    pub fn update_entity_id(&mut self, entity_id: &str)
        ensures
            final(self)@ == (FieldView { entity_id: entity_id@, ..old(self)@ }),
    {
        self.raw.update_entity_id(entity_id);
    }

    /// Replaces the value and nothing else.
    pub fn update_value(&mut self, value: DatabaseValue)
        ensures
            final(self)@ == (FieldView { value: value@, ..old(self)@ }),
    {
        self.raw.update_value(value);
    }

    /// Replaces the write time and nothing else.
    pub fn update_write_time(&mut self, write_time: Timestamp)
        ensures
            final(self)@ == (FieldView { write_time: write_time, ..old(self)@ }),
    {
        self.raw.update_write_time(write_time);
    }

    /// Replaces the writer and nothing else.
    pub fn update_writer_id(&mut self, writer_id: &str)
        ensures
            final(self)@ == (FieldView { writer_id: writer_id@, ..old(self)@ }),
    {
        self.raw.update_writer_id(writer_id);
    }

    /// Replaces the name and nothing else.
    pub fn update_name(&mut self, name: &str)
        ensures
            final(self)@ == (FieldView { name: name@, ..old(self)@ }),
    {
        self.raw.update_name(name);
    }

    /// Makes the field's value the given text; the rest stays.
    pub fn set_str_value(&mut self, value: String)
        ensures
            final(self)@ == (FieldView { value: ValueView::String(value@), ..old(self)@ }),
    {
        self.raw.update_value(DatabaseValue::new(RawValue::String(value)));
    }

    /// Makes the field's value the given integer; the rest stays.
    pub fn set_i64_value(&mut self, value: i64)
        ensures
            final(self)@ == (FieldView { value: ValueView::Integer(value), ..old(self)@ }),
    {
        self.raw.update_value(DatabaseValue::new(RawValue::Integer(value)));
    }

    /// Makes the field's value the given float, given as its IEEE 754 bit pattern; the rest stays.
    pub fn set_f64_value(&mut self, value: u64)
        ensures
            final(self)@ == (FieldView { value: ValueView::Float(value), ..old(self)@ }),
    {
        self.raw.update_value(DatabaseValue::new(RawValue::Float(value)));
    }

    /// Makes the field's value the given boolean; the rest stays.
    pub fn set_bool_value(&mut self, value: bool)
        ensures
            final(self)@ == (FieldView { value: ValueView::Boolean(value), ..old(self)@ }),
    {
        self.raw.update_value(DatabaseValue::new(RawValue::Boolean(value)));
    }

    /// Makes the field's value the given entity reference; the rest stays.
    pub fn set_entity_reference_value(&mut self, value: String)
        ensures
            final(self)@ == (FieldView { value: ValueView::EntityReference(value@), ..old(self)@ }),
    {
        self.raw.update_value(DatabaseValue::new(RawValue::EntityReference(value)));
    }

    /// Makes the field's value the given timestamp; the rest stays.
    pub fn set_timestamp_value(&mut self, value: Timestamp)
        ensures
            final(self)@ == (FieldView { value: ValueView::Timestamp(value), ..old(self)@ }),
    {
        self.raw.update_value(DatabaseValue::new(RawValue::Timestamp(value)));
    }

    /// Makes the field's value the given connection state; the rest stays.
    pub fn set_connection_state_value(&mut self, value: String)
        ensures
            final(self)@ == (FieldView { value: ValueView::ConnectionState(value@), ..old(self)@ }),
    {
        self.raw.update_value(DatabaseValue::new(RawValue::ConnectionState(value)));
    }

    /// Makes the field's value the given garage door state; the rest stays.
    pub fn set_garage_door_state_value(&mut self, value: String)
        ensures
            final(self)@ == (FieldView { value: ValueView::GarageDoorState(value@), ..old(self)@ }),
    {
        self.raw.update_value(DatabaseValue::new(RawValue::GarageDoorState(value)));
    }

    /// Makes the field's value unspecified; the rest stays.
    pub fn set_unspecified_value(&mut self)
        ensures
            final(self)@ == (FieldView { value: ValueView::Unspecified, ..old(self)@ }),
    {
        self.raw.update_value(DatabaseValue::new(RawValue::Unspecified));
    }
}

} // verus!
