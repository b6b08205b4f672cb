//! The hub's settings.
use vstd::prelude::*;

verus! {

/// The settings that the hub reads from its configuration file.
#[derive(Debug, Clone, PartialEq, Eq)]
pub struct Config {
    pub wxcorp_id: String,
    pub wxcorp_secret: String,
    pub wxcorp_app_id: String,
    pub wxcorp_token: String,
    pub wxcorp_encoding_aes_key: String,
    pub db_path: String,
    pub listen: String,
    pub database_host: String,
    pub database_port: u16,
    pub database_user: String,
    pub database_password: String,
    pub database_name: String,
    pub database_type: String,
}

} // verus!
