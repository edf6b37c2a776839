//! In-process delivery of events to listeners.

pub mod emitter;
