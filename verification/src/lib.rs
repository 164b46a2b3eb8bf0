//! Persistent-state coordinator library: a single-writer storage mediator
//! with schema versioning, an access-control and cookie-session model, and a
//! multi-subscriber notification bus.

pub mod access;
pub mod bus;
pub mod config;
pub mod coordinator;
pub mod feed;
pub mod laws;
pub mod parse;
pub mod schema;
pub mod store;
pub mod strutil;
pub mod types;
