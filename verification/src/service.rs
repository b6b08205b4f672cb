//! The services behind the hub's HTTP handlers.
pub mod auth;
pub mod message;
