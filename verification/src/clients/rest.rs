//! The REST transport's protocol.
//!
//! The transport itself sends and receives; it lives outside this library.
//! What it sends and what it makes of an answer is decided here: the state of
//! the session, the requests, the type tags of values, and the reading of
//! every reply.

pub mod decimal;
pub mod entities;
pub mod exchange;
pub mod fields;
pub mod json;
pub mod lists;
pub mod protocol;
pub mod requests;
pub mod session;
pub mod tags;
pub mod values;
