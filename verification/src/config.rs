//! Application configuration.

use vstd::prelude::*;

verus! {

/// Settings of the surrounding service. They are read from the process
/// environment by unverified code at the program's edge and handed in as
/// plain data.
#[derive(Clone, Debug, PartialEq, Eq)]
pub struct AppConfig {
    pub server_port: u16,
    pub database_url: String,
}

impl AppConfig {
    /// Bundles the service settings.
    pub fn new(server_port: u16, database_url: String) -> (r: Self)
        ensures
            r.server_port == server_port,
            r.database_url@ == database_url@,
    {
        AppConfig { server_port, database_url }
    }
}

} // verus!
