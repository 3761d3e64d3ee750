//! The process configuration as plain data: where to listen, where the
//! cache lives, and how to log. Loading it from disk is done by the
//! surrounding program, which hands the values in.

use vstd::prelude::*;

verus! {

/// Where log output goes.
#[derive(Debug, Clone, Copy, PartialEq, Eq, Structural)]
pub enum LogType {
    TERMINAL,
    FILE,
}

/// The whole process configuration.
#[derive(Debug, PartialEq)]
pub struct Config {
    pub host: Host,
    pub cache: Cache,
    pub logging: Logging,
}

/// The endpoint the server listens on.
#[derive(Debug, PartialEq)]
pub struct Host {
    pub hostname: String,
    pub port: u16,
}

/// Where the Directory Service cache is reached.
#[derive(Debug, PartialEq)]
pub struct Cache {
    pub hostname: String,
}

/// How logging is set up.
#[derive(Debug, PartialEq)]
pub struct Logging {
    pub on: bool,
    pub log_type: LogType,
    pub file_path: Option<String>,
}

/// The command-line arguments of the server.
#[derive(Debug, PartialEq)]
pub struct Arguments {
    /// Hostname on which the DNS server will run.
    pub hostname: String,
    /// Port on which the DNS server will run.
    pub port: u16,
}

} // verus!
