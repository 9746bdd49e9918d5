//! The service configuration: one explicit struct, built at startup and
//! passed to whatever needs it.

use vstd::prelude::*;

verus! {

/// How to reach the backing database.
#[derive(Debug)]
pub struct Database {
    /// The connection url of the backing store.
    pub url: String,
    /// How many pooled connections the store handle may hold open.
    pub max_connections: u32,
}

impl Database {
    pub fn new(url: String, max_connections: u32) -> (d: Database)
        ensures
            d.url == url,
            d.max_connections == max_connections,
    {
        Database { url, max_connections }
    }
}

/// Everything the service is configured with.
#[derive(Debug)]
pub struct Config {
    /// The host the server binds.
    pub host: String,
    /// The port the server binds.
    pub port: i32,
    /// The backing database.
    pub database: Database,
    /// The environment the service runs in, such as `development`.
    pub env: String,
    /// The token the administrative api expects.
    pub auth_token: String,
}

impl Config {
    pub fn new(host: String, port: i32, database: Database, env: String, auth_token: String) -> (c:
        Config)
        ensures
            c.host == host,
            c.port == port,
            c.database == database,
            c.env == env,
            c.auth_token == auth_token,
    {
        Config { host, port, database, env, auth_token }
    }
}

} // verus!
