//! The moving parts: the event bus, the subscription registry, the
//! connection supervisor and the scheduler that drives them.

pub mod application;
mod assoc;
pub mod database;
pub mod events;
pub mod logger;
pub mod notification;
pub mod workers;
