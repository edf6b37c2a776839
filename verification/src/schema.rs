//! Typed data held by the remote database: entities, fields, values and
//! the notification filter.

pub mod entity;
pub mod field;
pub mod notification;
pub mod time;
pub mod value;
