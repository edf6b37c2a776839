//! Transports: what the framework asks of the remote service.

pub mod common;
pub mod rest;
