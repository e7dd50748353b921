//! Log entries shown to the user.

use vstd::prelude::*;
use crate::text::to_owned_string;

verus! {

/// Severity of a log entry.
#[derive(Debug, Clone, Copy, PartialEq, Eq, Structural)]
pub enum LogLevel {
    Debug,
    Info,
    Warning,
    Error,
}

/// A log entry: its level as a JSON string, the message and the local time.
#[derive(Debug, Clone)]
pub struct LogEntry {
    pub level: String,
    pub message: String,
    pub timestamp: String,
}

/// The JSON text of a level: its lowercase name in double quotes.
pub open spec fn level_json(level: LogLevel) -> Seq<char> {
    match level {
        LogLevel::Debug => "\"debug\""@,
        LogLevel::Info => "\"info\""@,
        LogLevel::Warning => "\"warning\""@,
        LogLevel::Error => "\"error\""@,
    }
}

impl LogLevel {
    /// The level as JSON text.
    pub fn to_json(&self) -> (s: String)
        ensures
            s@ == level_json(*self),
    {
        match self {
            LogLevel::Debug => to_owned_string("\"debug\""),
            LogLevel::Info => to_owned_string("\"info\""),
            LogLevel::Warning => to_owned_string("\"warning\""),
            LogLevel::Error => to_owned_string("\"error\""),
        }
    }
}

/// The entry for `message` at `level`, stamped `timestamp`.
pub fn log_entry(level: LogLevel, message: String, timestamp: String) -> (e: LogEntry)
    ensures
        e.level@ == level_json(level),
        e.message == message,
        e.timestamp == timestamp,
{
    LogEntry { level: level.to_json(), message, timestamp }
}

} // verus!
