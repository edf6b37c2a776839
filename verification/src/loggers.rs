//! Loggers: the severity levels, the interface every logger offers, and the
//! console logger.

pub mod common;
pub mod console;
