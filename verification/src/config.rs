//! The configuration values the surrounding program reads from its
//! configuration files and hands in as plain data.

use vstd::prelude::*;

verus! {

/// Which configuration profile is active.
pub struct Profiles {
    pub active: String,
}

/// Where and how the server listens.
pub struct Server {
    pub address: String,
    pub port: u16,
    pub tls: bool,
    pub pem_cert_path: String,
    pub pem_key_path: String,
}

/// Where and at what level the log is written.
pub struct Log {
    pub level: String,
    pub path: String,
    pub name: String,
}

/// How the database is reached.
pub struct DB {
    pub url: String,
    pub pool_size: u32,
    pub pool_timeout: u32,
    pub log: bool,
    pub log_level: String,
}

} // verus!
