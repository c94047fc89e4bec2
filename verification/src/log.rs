//! The log level named by the configuration.

use vstd::prelude::*;
use crate::text::str_eq;

verus! {

/// A log verbosity level.
#[derive(Clone, Copy, Debug, PartialEq, Eq, Structural)]
pub enum LogLevel {
    Trace,
    Debug,
    Info,
    Warn,
    Error,
}

/// The level a configuration string names; anything unrecognized means
/// the default level.
pub open spec fn spec_log_level(s: Seq<char>) -> LogLevel {
    if s == "TRACE"@ {
        LogLevel::Trace
    } else if s == "DEBUG"@ {
        LogLevel::Debug
    } else if s == "INFO"@ {
        LogLevel::Info
    } else if s == "WARN"@ {
        LogLevel::Warn
    } else if s == "ERROR"@ {
        LogLevel::Error
    } else {
        LogLevel::Info
    }
}

/// The log level a configuration string names.
pub fn get_log_level(level: &str) -> (r: LogLevel)
    ensures
        r == spec_log_level(level@),
{
    if str_eq(level, "TRACE") {
        LogLevel::Trace
    } else if str_eq(level, "DEBUG") {
        LogLevel::Debug
    } else if str_eq(level, "INFO") {
        LogLevel::Info
    } else if str_eq(level, "WARN") {
        LogLevel::Warn
    } else if str_eq(level, "ERROR") {
        LogLevel::Error
    } else {
        LogLevel::Info
    }
}

} // verus!
