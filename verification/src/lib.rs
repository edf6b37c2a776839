//! Client-side layer that keeps a process synchronized with a remote
//! entity/field database and its change-notification stream.
//!
//! The data model lives in [`schema`]. The subscription registry, the event
//! bus, the connection supervisor and the scheduler live in [`framework`].
//! What the framework asks of the remote service is in [`clients`], with the
//! protocol of the REST transport. The loggers are in [`loggers`].

pub mod clients;
pub mod error;
pub mod framework;
pub mod loggers;
pub mod schema;
