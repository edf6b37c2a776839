//! The workers the scheduler runs.

pub mod common;
pub mod database;
