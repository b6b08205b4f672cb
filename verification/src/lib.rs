//! Verified core of a message hub that relays notifications through the
//! WeChat Work (企业微信) messaging API.
pub mod auth;
pub mod config;
pub mod lexicographic;
pub mod message;
pub mod service;
pub mod user;
pub mod wx_corp;
