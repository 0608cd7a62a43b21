//! A verified session identity subsystem: an expiring key-value store of
//! session records, the manager that creates, fetches, refreshes, revokes
//! and sweeps them, and the request-scoped decisions of the anonymous
//! identity resolver and the session authentication gate.

pub mod anonymous;
pub mod auth;
pub mod config;
pub mod errors;
pub mod openapi;
pub mod service;
pub mod session;
pub mod store;
pub mod strutil;
pub mod token;
pub mod utils;
