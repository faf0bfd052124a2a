//! Application settings, errors and the handle on the secret store.

use vstd::prelude::*;

verus! {

/// Application settings, kept as JSON in the data directory.
#[derive(Debug, Clone)]
pub struct AppConfig {
    pub app_name: String,
    pub version: String,
    pub db_pool_size: u32,
    pub log_level: String,
}

impl Default for AppConfig {
    fn default() -> (r: AppConfig)
        ensures
            r.app_name@ == "Agent Manager"@,
            r.version@ == "0.0.1"@,
            r.db_pool_size == 5,
            r.log_level@ == "info"@,
    {
        AppConfig {
            app_name: String::from_str("Agent Manager"),
            version: String::from_str("0.0.1"),
            db_pool_size: 5,
            log_level: String::from_str("info"),
        }
    }
}

/// Errors of the application shell.
#[derive(Debug, Clone, PartialEq, Eq)]
pub enum AppError {
    Database(String),
    Config(String),
    Keychain(String),
    Io(String),
    Unknown(String),
}

/// Handle on the platform's secret store for one service name.
#[derive(Debug, Clone)]
pub struct KeychainManager {
    service_name: String,
}

impl KeychainManager {
    /// A handle for `service_name`.
    pub fn new(service_name: &str) -> (r: KeychainManager)
        ensures
            r.service()@ == service_name@,
    {
        KeychainManager { service_name: String::from_str(service_name) }
    }

    /// The service name.
    pub closed spec fn service(&self) -> String {
        self.service_name
    }

    /// The service name.
    pub fn service_name(&self) -> (r: &str)
        ensures
            r@ == self.service()@,
    {
        self.service_name.as_str()
    }
}

} // verus!
