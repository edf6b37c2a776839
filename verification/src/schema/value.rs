//! The tagged union of the values a field may hold.
//!
//! Reading or updating a value as the wrong variant is an
//! [`Error::DatabaseFieldError`], never a panic. A float is held as its
//! IEEE 754 bit pattern, so that values compare and copy exactly.

use vstd::prelude::*;
use crate::error::{Error, ErrorView};
use crate::schema::time::Timestamp;

verus! {

/// A value of one of the nine kinds the database knows.
#[derive(Debug, Clone, PartialEq)]
pub enum RawValue {
    Unspecified,
    String(String),
    Integer(i64),
    Float(u64),
    Boolean(bool),
    EntityReference(String),
    Timestamp(Timestamp),
    ConnectionState(String),
    GarageDoorState(String),
}

/// Mathematical content of a [`RawValue`].
pub ghost enum ValueView {
    Unspecified,
    String(Seq<char>),
    Integer(i64),
    Float(u64),
    Boolean(bool),
    EntityReference(Seq<char>),
    Timestamp(Timestamp),
    ConnectionState(Seq<char>),
    GarageDoorState(Seq<char>),
}

/// Which of the nine kinds a value is of.
#[derive(Debug, Clone, Copy, PartialEq, Eq, Hash, Structural)]
pub enum ValueKind {
    Unspecified,
    String,
    Integer,
    Float,
    Boolean,
    EntityReference,
    Timestamp,
    ConnectionState,
    GarageDoorState,
}

impl ValueView {
    /// The kind of the value.
    pub open spec fn kind(self) -> ValueKind {
        match self {
            ValueView::Unspecified => ValueKind::Unspecified,
            ValueView::String(_) => ValueKind::String,
            ValueView::Integer(_) => ValueKind::Integer,
            ValueView::Float(_) => ValueKind::Float,
            ValueView::Boolean(_) => ValueKind::Boolean,
            ValueView::EntityReference(_) => ValueKind::EntityReference,
            ValueView::Timestamp(_) => ValueKind::Timestamp,
            ValueView::ConnectionState(_) => ValueKind::ConnectionState,
            ValueView::GarageDoorState(_) => ValueKind::GarageDoorState,
        }
    }
}

impl View for RawValue {
    type V = ValueView;

    open spec fn view(&self) -> ValueView {
        match self {
            RawValue::Unspecified => ValueView::Unspecified,
            RawValue::String(s) => ValueView::String(s@),
            RawValue::Integer(i) => ValueView::Integer(*i),
            RawValue::Float(f) => ValueView::Float(*f),
            RawValue::Boolean(b) => ValueView::Boolean(*b),
            RawValue::EntityReference(e) => ValueView::EntityReference(e@),
            RawValue::Timestamp(t) => ValueView::Timestamp(*t),
            RawValue::ConnectionState(c) => ValueView::ConnectionState(c@),
            RawValue::GarageDoorState(g) => ValueView::GarageDoorState(g@),
        }
    }
}

/// The message of the error that reading or updating a value as the wrong
/// variant gives, per expected variant.
impl ValueView {
    pub open spec fn not_str() -> ErrorView {
        ErrorView::DatabaseFieldError("Value is not a string"@)
    }

    pub open spec fn not_i64() -> ErrorView {
        ErrorView::DatabaseFieldError("Value is not an integer"@)
    }

    pub open spec fn not_f64() -> ErrorView {
        ErrorView::DatabaseFieldError("Value is not a float"@)
    }

    pub open spec fn not_bool() -> ErrorView {
        ErrorView::DatabaseFieldError("Value is not a boolean"@)
    }

    pub open spec fn not_entity_reference() -> ErrorView {
        ErrorView::DatabaseFieldError("Value is not an entity reference"@)
    }

    pub open spec fn not_timestamp() -> ErrorView {
        ErrorView::DatabaseFieldError("Value is not a timestamp"@)
    }

    pub open spec fn not_connection_state() -> ErrorView {
        ErrorView::DatabaseFieldError("Value is not a connection state"@)
    }

    pub open spec fn not_garage_door_state() -> ErrorView {
        ErrorView::DatabaseFieldError("Value is not a garage door state"@)
    }
}

impl RawValue {
    /// The value as a [`DatabaseValue`].
    pub fn into_value(self) -> (v: DatabaseValue)
        ensures
            v@ == self@,
    {
        DatabaseValue::new(self)
    }

    /// The kind of the value.
    pub fn kind(&self) -> (k: ValueKind)
        ensures
            k == self@.kind(),
    {
        match self {
            RawValue::Unspecified => ValueKind::Unspecified,
            RawValue::String(_) => ValueKind::String,
            RawValue::Integer(_) => ValueKind::Integer,
            RawValue::Float(_) => ValueKind::Float,
            RawValue::Boolean(_) => ValueKind::Boolean,
            RawValue::EntityReference(_) => ValueKind::EntityReference,
            RawValue::Timestamp(_) => ValueKind::Timestamp,
            RawValue::ConnectionState(_) => ValueKind::ConnectionState,
            RawValue::GarageDoorState(_) => ValueKind::GarageDoorState,
        }
    }

    /// A copy of the value.
    pub fn duplicate(&self) -> (v: RawValue)
        ensures
            v@ == self@,
    {
        match self {
            RawValue::Unspecified => RawValue::Unspecified,
            RawValue::String(s) => RawValue::String(s.clone()),
            RawValue::Integer(i) => RawValue::Integer(*i),
            RawValue::Float(f) => RawValue::Float(*f),
            RawValue::Boolean(b) => RawValue::Boolean(*b),
            RawValue::EntityReference(e) => RawValue::EntityReference(e.clone()),
            RawValue::Timestamp(t) => RawValue::Timestamp(*t),
            RawValue::ConnectionState(c) => RawValue::ConnectionState(c.clone()),
            RawValue::GarageDoorState(g) => RawValue::GarageDoorState(g.clone()),
        }
    }

    /// The text held, or an error where the value is of another variant.
    pub fn as_str(&self) -> (r: Result<String, Error>)
        ensures
            match r {
                Ok(v) => self@ == ValueView::String(v@),
                Err(e) => !(self@ is String) && e@ == ValueView::not_str(),
            },
    {
        match self {
            RawValue::String(v) => Ok(v.clone()),
            _ => Err(Error::from_database_field("Value is not a string")),
        }
    }

    /// The integer held, or an error where the value is of another variant.
    pub fn as_i64(&self) -> (r: Result<i64, Error>)
        ensures
            match r {
                Ok(v) => self@ == ValueView::Integer(v),
                Err(e) => !(self@ is Integer) && e@ == ValueView::not_i64(),
            },
    {
        match self {
            RawValue::Integer(v) => Ok(*v),
            _ => Err(Error::from_database_field("Value is not an integer")),
        }
    }

    /// The float, as its IEEE 754 bit pattern held, or an error where the value is of another variant.
    pub fn as_f64(&self) -> (r: Result<u64, Error>)
        ensures
            match r {
                Ok(v) => self@ == ValueView::Float(v),
                Err(e) => !(self@ is Float) && e@ == ValueView::not_f64(),
            },
    {
        match self {
            RawValue::Float(v) => Ok(*v),
            _ => Err(Error::from_database_field("Value is not a float")),
        }
    }

    /// The boolean held, or an error where the value is of another variant.
    pub fn as_bool(&self) -> (r: Result<bool, Error>)
        ensures
            match r {
                Ok(v) => self@ == ValueView::Boolean(v),
                Err(e) => !(self@ is Boolean) && e@ == ValueView::not_bool(),
            },
    {
        match self {
            RawValue::Boolean(v) => Ok(*v),
            _ => Err(Error::from_database_field("Value is not a boolean")),
        }
    }

    /// The entity reference held, or an error where the value is of another variant.
    pub fn as_entity_reference(&self) -> (r: Result<String, Error>)
        ensures
            match r {
                Ok(v) => self@ == ValueView::EntityReference(v@),
                Err(e) => !(self@ is EntityReference) && e@ == ValueView::not_entity_reference(),
            },
    {
        match self {
            RawValue::EntityReference(v) => Ok(v.clone()),
            _ => Err(Error::from_database_field("Value is not an entity reference")),
        }
    }

    /// The timestamp held, or an error where the value is of another variant.
    pub fn as_timestamp(&self) -> (r: Result<Timestamp, Error>)
        ensures
            match r {
                Ok(v) => self@ == ValueView::Timestamp(v),
                Err(e) => !(self@ is Timestamp) && e@ == ValueView::not_timestamp(),
            },
    {
        match self {
            RawValue::Timestamp(v) => Ok(*v),
            _ => Err(Error::from_database_field("Value is not a timestamp")),
        }
    }

    /// The connection state held, or an error where the value is of another variant.
    pub fn as_connection_state(&self) -> (r: Result<String, Error>)
        ensures
            match r {
                Ok(v) => self@ == ValueView::ConnectionState(v@),
                Err(e) => !(self@ is ConnectionState) && e@ == ValueView::not_connection_state(),
            },
    {
        match self {
            RawValue::ConnectionState(v) => Ok(v.clone()),
            _ => Err(Error::from_database_field("Value is not a connection state")),
        }
    }

    /// The garage door state held, or an error where the value is of another variant.
    pub fn as_garage_door_state(&self) -> (r: Result<String, Error>)
        ensures
            match r {
                Ok(v) => self@ == ValueView::GarageDoorState(v@),
                Err(e) => !(self@ is GarageDoorState) && e@ == ValueView::not_garage_door_state(),
            },
    {
        match self {
            RawValue::GarageDoorState(v) => Ok(v.clone()),
            _ => Err(Error::from_database_field("Value is not a garage door state")),
        }
    }

    /// Replaces the text held; an error, and no change, where the value is
    /// of another variant.
    pub fn update_str(&mut self, value: String) -> (r: Result<(), Error>)
        ensures
            match r {
                Ok(_) => old(self)@ is String && final(self)@ == ValueView::String(value@),
                Err(e) => !(old(self)@ is String) && final(self)@ == old(self)@ && e@
                    == ValueView::not_str(),
            },
    {
        let same_variant = match self {
            RawValue::String(_) => true,
            _ => false,
        };
        if same_variant {
            *self = RawValue::String(value);
            Ok(())
        } else {
            Err(Error::from_database_field("Value is not a string"))
        }
    }

    /// Replaces the integer held; an error, and no change, where the value is
    /// of another variant.
    pub fn update_i64(&mut self, value: i64) -> (r: Result<(), Error>)
        ensures
            match r {
                Ok(_) => old(self)@ is Integer && final(self)@ == ValueView::Integer(value),
                Err(e) => !(old(self)@ is Integer) && final(self)@ == old(self)@ && e@
                    == ValueView::not_i64(),
            },
    {
        let same_variant = match self {
            RawValue::Integer(_) => true,
            _ => false,
        };
        if same_variant {
            *self = RawValue::Integer(value);
            Ok(())
        } else {
            Err(Error::from_database_field("Value is not an integer"))
        }
    }

    /// Replaces the float held; an error, and no change, where the value is
    /// of another variant.
    pub fn update_f64(&mut self, value: u64) -> (r: Result<(), Error>)
        ensures
            match r {
                Ok(_) => old(self)@ is Float && final(self)@ == ValueView::Float(value),
                Err(e) => !(old(self)@ is Float) && final(self)@ == old(self)@ && e@
                    == ValueView::not_f64(),
            },
    {
        let same_variant = match self {
            RawValue::Float(_) => true,
            _ => false,
        };
        if same_variant {
            *self = RawValue::Float(value);
            Ok(())
        } else {
            Err(Error::from_database_field("Value is not a float"))
        }
    }

    /// Replaces the boolean held; an error, and no change, where the value is
    /// of another variant.
    pub fn update_bool(&mut self, value: bool) -> (r: Result<(), Error>)
        ensures
            match r {
                Ok(_) => old(self)@ is Boolean && final(self)@ == ValueView::Boolean(value),
                Err(e) => !(old(self)@ is Boolean) && final(self)@ == old(self)@ && e@
                    == ValueView::not_bool(),
            },
    {
        let same_variant = match self {
            RawValue::Boolean(_) => true,
            _ => false,
        };
        if same_variant {
            *self = RawValue::Boolean(value);
            Ok(())
        } else {
            Err(Error::from_database_field("Value is not a boolean"))
        }
    }

    /// Replaces the entity reference held; an error, and no change, where the value is
    /// of another variant.
    pub fn update_entity_reference(&mut self, value: String) -> (r: Result<(), Error>)
        ensures
            match r {
                Ok(_) => old(self)@ is EntityReference && final(self)@ == ValueView::EntityReference(value@),
                Err(e) => !(old(self)@ is EntityReference) && final(self)@ == old(self)@ && e@
                    == ValueView::not_entity_reference(),
            },
    {
        let same_variant = match self {
            RawValue::EntityReference(_) => true,
            _ => false,
        };
        if same_variant {
            *self = RawValue::EntityReference(value);
            Ok(())
        } else {
            Err(Error::from_database_field("Value is not an entity reference"))
        }
    }

    /// Replaces the timestamp held; an error, and no change, where the value is
    /// of another variant.
    pub fn update_timestamp(&mut self, value: Timestamp) -> (r: Result<(), Error>)
        ensures
            match r {
                Ok(_) => old(self)@ is Timestamp && final(self)@ == ValueView::Timestamp(value),
                Err(e) => !(old(self)@ is Timestamp) && final(self)@ == old(self)@ && e@
                    == ValueView::not_timestamp(),
            },
    {
        let same_variant = match self {
            RawValue::Timestamp(_) => true,
            _ => false,
        };
        if same_variant {
            *self = RawValue::Timestamp(value);
            Ok(())
        } else {
            Err(Error::from_database_field("Value is not a timestamp"))
        }
    }

    /// Replaces the connection state held; an error, and no change, where the value is
    /// of another variant.
    pub fn update_connection_state(&mut self, value: String) -> (r: Result<(), Error>)
        ensures
            match r {
                Ok(_) => old(self)@ is ConnectionState && final(self)@ == ValueView::ConnectionState(value@),
                Err(e) => !(old(self)@ is ConnectionState) && final(self)@ == old(self)@ && e@
                    == ValueView::not_connection_state(),
            },
    {
        let same_variant = match self {
            RawValue::ConnectionState(_) => true,
            _ => false,
        };
        if same_variant {
            *self = RawValue::ConnectionState(value);
            Ok(())
        } else {
            Err(Error::from_database_field("Value is not a connection state"))
        }
    }

    /// Replaces the garage door state held; an error, and no change, where the value is
    /// of another variant.
    pub fn update_garage_door_state(&mut self, value: String) -> (r: Result<(), Error>)
        ensures
            match r {
                Ok(_) => old(self)@ is GarageDoorState && final(self)@ == ValueView::GarageDoorState(value@),
                Err(e) => !(old(self)@ is GarageDoorState) && final(self)@ == old(self)@ && e@
                    == ValueView::not_garage_door_state(),
            },
    {
        let same_variant = match self {
            RawValue::GarageDoorState(_) => true,
            _ => false,
        };
        if same_variant {
            *self = RawValue::GarageDoorState(value);
            Ok(())
        } else {
            Err(Error::from_database_field("Value is not a garage door state"))
        }
    }

    /// Makes the value the given text, whatever it held.
    pub fn set_str(&mut self, value: String)
        ensures
            final(self)@ == ValueView::String(value@),
    {
        *self = RawValue::String(value);
    }

    /// Makes the value the given integer, whatever it held.
    pub fn set_i64(&mut self, value: i64)
        ensures
            final(self)@ == ValueView::Integer(value),
    {
        *self = RawValue::Integer(value);
    }

    /// Makes the value the given float, whatever it held.
    pub fn set_f64(&mut self, value: u64)
        ensures
            final(self)@ == ValueView::Float(value),
    {
        *self = RawValue::Float(value);
    }

    /// Makes the value the given boolean, whatever it held.
    pub fn set_bool(&mut self, value: bool)
        ensures
            final(self)@ == ValueView::Boolean(value),
    {
        *self = RawValue::Boolean(value);
    }

    /// Makes the value the given entity reference, whatever it held.
    pub fn set_entity_reference(&mut self, value: String)
        ensures
            final(self)@ == ValueView::EntityReference(value@),
    {
        *self = RawValue::EntityReference(value);
    }

    /// Makes the value the given timestamp, whatever it held.
    pub fn set_timestamp(&mut self, value: Timestamp)
        ensures
            final(self)@ == ValueView::Timestamp(value),
    {
        *self = RawValue::Timestamp(value);
    }

    /// Makes the value the given connection state, whatever it held.
    pub fn set_connection_state(&mut self, value: String)
        ensures
            final(self)@ == ValueView::ConnectionState(value@),
    {
        *self = RawValue::ConnectionState(value);
    }

    /// Makes the value the given garage door state, whatever it held.
    pub fn set_garage_door_state(&mut self, value: String)
        ensures
            final(self)@ == ValueView::GarageDoorState(value@),
    {
        *self = RawValue::GarageDoorState(value);
    }

    /// Makes the value unspecified, whatever it held.
    pub fn set_unspecified(&mut self)
        ensures
            final(self)@ == ValueView::Unspecified,
    {
        *self = RawValue::Unspecified;
    }

    /// Whether the value is unspecified.
    pub fn is_unspecified(&self) -> (b: bool)
        ensures
            b == (self@ is Unspecified),
    {
        match self {
            RawValue::Unspecified => true,
            _ => false,
        }
    }

    /// Whether the value holds a string.
    pub fn is_str(&self) -> (b: bool)
        ensures
            b == (self@ is String),
    {
        match self {
            RawValue::String(_) => true,
            _ => false,
        }
    }

    /// Whether the value holds an integer.
    pub fn is_i64(&self) -> (b: bool)
        ensures
            b == (self@ is Integer),
    {
        match self {
            RawValue::Integer(_) => true,
            _ => false,
        }
    }

    /// Whether the value holds a float.
    pub fn is_f64(&self) -> (b: bool)
        ensures
            b == (self@ is Float),
    {
        match self {
            RawValue::Float(_) => true,
            _ => false,
        }
    }

    /// Whether the value holds a boolean.
    pub fn is_bool(&self) -> (b: bool)
        ensures
            b == (self@ is Boolean),
    {
        match self {
            RawValue::Boolean(_) => true,
            _ => false,
        }
    }

    /// Whether the value holds an entity reference.
    pub fn is_entity_reference(&self) -> (b: bool)
        ensures
            b == (self@ is EntityReference),
    {
        match self {
            RawValue::EntityReference(_) => true,
            _ => false,
        }
    }

    /// Whether the value holds a timestamp.
    pub fn is_timestamp(&self) -> (b: bool)
        ensures
            b == (self@ is Timestamp),
    {
        match self {
            RawValue::Timestamp(_) => true,
            _ => false,
        }
    }

    /// Whether the value holds a connection state.
    pub fn is_connection_state(&self) -> (b: bool)
        ensures
            b == (self@ is ConnectionState),
    {
        match self {
            RawValue::ConnectionState(_) => true,
            _ => false,
        }
    }

    /// Whether the value holds a garage door state.
    pub fn is_garage_door_state(&self) -> (b: bool)
        ensures
            b == (self@ is GarageDoorState),
    {
        match self {
            RawValue::GarageDoorState(_) => true,
            _ => false,
        }
    }
}

/// A value as a field holds it: one owner, changed in place.
#[derive(Debug)]
pub struct DatabaseValue {
    raw: RawValue,
}

impl View for DatabaseValue {
    type V = ValueView;

    closed spec fn view(&self) -> ValueView {
        self.raw@
    }
}

impl DatabaseValue {
    /// Wraps a raw value.
    pub fn new(value: RawValue) -> (v: DatabaseValue)
        ensures
            v@ == value@,
    {
        DatabaseValue { raw: value }
    }

    /// A copy of the value.
    pub fn clone(&self) -> (v: DatabaseValue)
        ensures
            v@ == self@,
    {
        DatabaseValue { raw: self.raw.duplicate() }
    }

    /// The raw value held.
    pub fn into_raw(self) -> (v: RawValue)
        ensures
            v@ == self@,
    {
        self.raw
    }

    /// The text held, or an error where the value is of another variant.
    pub fn as_str(&self) -> (r: Result<String, Error>)
        ensures
            match r {
                Ok(v) => self@ == ValueView::String(v@),
                Err(e) => !(self@ is String) && e@ == ValueView::not_str(),
            },
    {
        self.raw.as_str()
    }

    /// The integer held, or an error where the value is of another variant.
    pub fn as_i64(&self) -> (r: Result<i64, Error>)
        ensures
            match r {
                Ok(v) => self@ == ValueView::Integer(v),
                Err(e) => !(self@ is Integer) && e@ == ValueView::not_i64(),
            },
    {
        self.raw.as_i64()
    }

    /// The float, as its IEEE 754 bit pattern held, or an error where the value is of another variant.
    pub fn as_f64(&self) -> (r: Result<u64, Error>)
        ensures
            match r {
                Ok(v) => self@ == ValueView::Float(v),
                Err(e) => !(self@ is Float) && e@ == ValueView::not_f64(),
            },
    {
        self.raw.as_f64()
    }

    /// The boolean held, or an error where the value is of another variant.
    pub fn as_bool(&self) -> (r: Result<bool, Error>)
        ensures
            match r {
                Ok(v) => self@ == ValueView::Boolean(v),
                Err(e) => !(self@ is Boolean) && e@ == ValueView::not_bool(),
            },
    {
        self.raw.as_bool()
    }

    /// The entity reference held, or an error where the value is of another variant.
    pub fn as_entity_reference(&self) -> (r: Result<String, Error>)
        ensures
            match r {
                Ok(v) => self@ == ValueView::EntityReference(v@),
                Err(e) => !(self@ is EntityReference) && e@ == ValueView::not_entity_reference(),
            },
    {
        self.raw.as_entity_reference()
    }

    /// The timestamp held, or an error where the value is of another variant.
    pub fn as_timestamp(&self) -> (r: Result<Timestamp, Error>)
        ensures
            match r {
                Ok(v) => self@ == ValueView::Timestamp(v),
                Err(e) => !(self@ is Timestamp) && e@ == ValueView::not_timestamp(),
            },
    {
        self.raw.as_timestamp()
    }

    /// The connection state held, or an error where the value is of another variant.
    pub fn as_connection_state(&self) -> (r: Result<String, Error>)
        ensures
            match r {
                Ok(v) => self@ == ValueView::ConnectionState(v@),
                Err(e) => !(self@ is ConnectionState) && e@ == ValueView::not_connection_state(),
            },
    {
        self.raw.as_connection_state()
    }

    /// The garage door state held, or an error where the value is of another variant.
    pub fn as_garage_door_state(&self) -> (r: Result<String, Error>)
        ensures
            match r {
                Ok(v) => self@ == ValueView::GarageDoorState(v@),
                Err(e) => !(self@ is GarageDoorState) && e@ == ValueView::not_garage_door_state(),
            },
    {
        self.raw.as_garage_door_state()
    }

    /// Replaces the text held; an error, and no change, where the value is
    /// of another variant.
    pub fn update_str(&mut self, value: String) -> (r: Result<(), Error>)
        ensures
            match r {
                Ok(_) => old(self)@ is String && final(self)@ == ValueView::String(value@),
                Err(e) => !(old(self)@ is String) && final(self)@ == old(self)@ && e@
                    == ValueView::not_str(),
            },
    {
        self.raw.update_str(value)
    }

    /// Replaces the integer held; an error, and no change, where the value is
    /// of another variant.
    pub fn update_i64(&mut self, value: i64) -> (r: Result<(), Error>)
        ensures
            match r {
                Ok(_) => old(self)@ is Integer && final(self)@ == ValueView::Integer(value),
                Err(e) => !(old(self)@ is Integer) && final(self)@ == old(self)@ && e@
                    == ValueView::not_i64(),
            },
    {
        self.raw.update_i64(value)
    }

    /// Replaces the float held; an error, and no change, where the value is
    /// of another variant.
    pub fn update_f64(&mut self, value: u64) -> (r: Result<(), Error>)
        ensures
            match r {
                Ok(_) => old(self)@ is Float && final(self)@ == ValueView::Float(value),
                Err(e) => !(old(self)@ is Float) && final(self)@ == old(self)@ && e@
                    == ValueView::not_f64(),
            },
    {
        self.raw.update_f64(value)
    }

    /// Replaces the boolean held; an error, and no change, where the value is
    /// of another variant.
    pub fn update_bool(&mut self, value: bool) -> (r: Result<(), Error>)
        ensures
            match r {
                Ok(_) => old(self)@ is Boolean && final(self)@ == ValueView::Boolean(value),
                Err(e) => !(old(self)@ is Boolean) && final(self)@ == old(self)@ && e@
                    == ValueView::not_bool(),
            },
    {
        self.raw.update_bool(value)
    }

    /// Replaces the entity reference held; an error, and no change, where the value is
    /// of another variant.
    pub fn update_entity_reference(&mut self, value: String) -> (r: Result<(), Error>)
        ensures
            match r {
                Ok(_) => old(self)@ is EntityReference && final(self)@ == ValueView::EntityReference(value@),
                Err(e) => !(old(self)@ is EntityReference) && final(self)@ == old(self)@ && e@
                    == ValueView::not_entity_reference(),
            },
    {
        self.raw.update_entity_reference(value)
    }

    /// Replaces the timestamp held; an error, and no change, where the value is
    /// of another variant.
    pub fn update_timestamp(&mut self, value: Timestamp) -> (r: Result<(), Error>)
        ensures
            match r {
                Ok(_) => old(self)@ is Timestamp && final(self)@ == ValueView::Timestamp(value),
                Err(e) => !(old(self)@ is Timestamp) && final(self)@ == old(self)@ && e@
                    == ValueView::not_timestamp(),
            },
    {
        self.raw.update_timestamp(value)
    }

    /// Replaces the connection state held; an error, and no change, where the value is
    /// of another variant.
    pub fn update_connection_state(&mut self, value: String) -> (r: Result<(), Error>)
        ensures
            match r {
                Ok(_) => old(self)@ is ConnectionState && final(self)@ == ValueView::ConnectionState(value@),
                Err(e) => !(old(self)@ is ConnectionState) && final(self)@ == old(self)@ && e@
                    == ValueView::not_connection_state(),
            },
    {
        self.raw.update_connection_state(value)
    }

    /// Replaces the garage door state held; an error, and no change, where the value is
    /// of another variant.
    pub fn update_garage_door_state(&mut self, value: String) -> (r: Result<(), Error>)
        ensures
            match r {
                Ok(_) => old(self)@ is GarageDoorState && final(self)@ == ValueView::GarageDoorState(value@),
                Err(e) => !(old(self)@ is GarageDoorState) && final(self)@ == old(self)@ && e@
                    == ValueView::not_garage_door_state(),
            },
    {
        self.raw.update_garage_door_state(value)
    }

    /// Makes the value the given text, whatever it held.
    pub fn set_str(&mut self, value: String)
        ensures
            final(self)@ == ValueView::String(value@),
    {
        self.raw.set_str(value)
    }

    /// Makes the value the given integer, whatever it held.
    pub fn set_i64(&mut self, value: i64)
        ensures
            final(self)@ == ValueView::Integer(value),
    {
        self.raw.set_i64(value)
    }

    /// Makes the value the given float, whatever it held.
    pub fn set_f64(&mut self, value: u64)
        ensures
            final(self)@ == ValueView::Float(value),
    {
        self.raw.set_f64(value)
    }

    /// Makes the value the given boolean, whatever it held.
    pub fn set_bool(&mut self, value: bool)
        ensures
            final(self)@ == ValueView::Boolean(value),
    {
        self.raw.set_bool(value)
    }

    /// Makes the value the given entity reference, whatever it held.
    pub fn set_entity_reference(&mut self, value: String)
        ensures
            final(self)@ == ValueView::EntityReference(value@),
    {
        self.raw.set_entity_reference(value)
    }

    /// Makes the value the given timestamp, whatever it held.
    pub fn set_timestamp(&mut self, value: Timestamp)
        ensures
            final(self)@ == ValueView::Timestamp(value),
    {
        self.raw.set_timestamp(value)
    }

    /// Makes the value the given connection state, whatever it held.
    pub fn set_connection_state(&mut self, value: String)
        ensures
            final(self)@ == ValueView::ConnectionState(value@),
    {
        self.raw.set_connection_state(value)
    }

    /// Makes the value the given garage door state, whatever it held.
    pub fn set_garage_door_state(&mut self, value: String)
        ensures
            final(self)@ == ValueView::GarageDoorState(value@),
    {
        self.raw.set_garage_door_state(value)
    }

    /// Makes the value unspecified, whatever it held.
    pub fn set_unspecified(&mut self)
        ensures
            final(self)@ == ValueView::Unspecified,
    {
        self.raw.set_unspecified()
    }

    /// Whether the value is unspecified.
    pub fn is_unspecified(&self) -> (b: bool)
        ensures
            b == (self@ is Unspecified),
    {
        self.raw.is_unspecified()
    }

    /// Whether the value holds a string.
    pub fn is_str(&self) -> (b: bool)
        ensures
            b == (self@ is String),
    {
        self.raw.is_str()
    }

    /// Whether the value holds an integer.
    pub fn is_i64(&self) -> (b: bool)
        ensures
            b == (self@ is Integer),
    {
        self.raw.is_i64()
    }

    /// Whether the value holds a float.
    pub fn is_f64(&self) -> (b: bool)
        ensures
            b == (self@ is Float),
    {
        self.raw.is_f64()
    }

    /// Whether the value holds a boolean.
    pub fn is_bool(&self) -> (b: bool)
        ensures
            b == (self@ is Boolean),
    {
        self.raw.is_bool()
    }

    /// Whether the value holds an entity reference.
    pub fn is_entity_reference(&self) -> (b: bool)
        ensures
            b == (self@ is EntityReference),
    {
        self.raw.is_entity_reference()
    }

    /// Whether the value holds a timestamp.
    pub fn is_timestamp(&self) -> (b: bool)
        ensures
            b == (self@ is Timestamp),
    {
        self.raw.is_timestamp()
    }

    /// Whether the value holds a connection state.
    pub fn is_connection_state(&self) -> (b: bool)
        ensures
            b == (self@ is ConnectionState),
    {
        self.raw.is_connection_state()
    }

    /// Whether the value holds a garage door state.
    pub fn is_garage_door_state(&self) -> (b: bool)
        ensures
            b == (self@ is GarageDoorState),
    {
        self.raw.is_garage_door_state()
    }
}

} // verus!
