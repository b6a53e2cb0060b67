use vstd::prelude::*;

use crate::text::has_suffix;

verus! {

/// Severity of a log line shown to the user.
#[derive(Clone, Copy, Debug, PartialEq, Eq, Structural)]
pub enum Level {
    Info,
    Success,
    Error,
}

pub open spec fn level_text(l: Level) -> Seq<char> {
    match l {
        Level::Info => "info"@,
        Level::Success => "success"@,
        Level::Error => "error"@,
    }
}

impl Level {
    /// The name under which the level is published.
    pub fn name(&self) -> (r: String)
        ensures
            r@ == level_text(*self),
    {
        match self {
            Level::Info => String::from_str("info"),
            Level::Success => String::from_str("success"),
            Level::Error => String::from_str("error"),
        }
    }
}

/// One log line before it is stamped with the time.
#[derive(Clone, Debug)]
pub struct LogRecord {
    pub level: Level,
    pub message: String,
}

/// A log line as published: time, level name, message and optional details.
#[derive(Clone, Debug)]
pub struct LogEntry {
    pub timestamp: String,
    pub level: String,
    pub message: String,
    pub details: Option<String>,
}

pub open spec fn record_view(r: LogRecord) -> (Level, Seq<char>) {
    (r.level, r.message@)
}

/// The (level, message) pairs of a list of log records.
pub open spec fn records_view(v: Seq<LogRecord>) -> Seq<(Level, Seq<char>)> {
    v.map_values(|r: LogRecord| record_view(r))
}

pub fn record(level: Level, message: String) -> (r: LogRecord)
    ensures
        r.level == level,
        r.message@ == message@,
{
    LogRecord { level, message }
}

/// Relies on chrono's `Utc::now().to_rfc3339()`: the current time in RFC 3339.
/// The time is read from the clock; whatever it is, the offset of UTC is
/// written as `+00:00` at the end.
#[verifier::external_body]
fn now_rfc3339() -> (r: String)
    ensures
        has_suffix(r@, "+00:00"@),
{
    chrono::Utc::now().to_rfc3339()
}

/// A log entry stamped with the given time.
pub fn log_entry_at(timestamp: String, level: &str, message: &str, details: Option<String>) -> (r:
    LogEntry)
    ensures
        r.timestamp@ == timestamp@,
        r.level@ == level@,
        r.message@ == message@,
        r.details == details,
{
    LogEntry { timestamp, level: level.to_owned(), message: message.to_owned(), details }
}

/// A log entry stamped with the current time.
pub fn create_log_entry(level: &str, message: &str, details: Option<String>) -> (r: LogEntry)
    ensures
        has_suffix(r.timestamp@, "+00:00"@),
        r.level@ == level@,
        r.message@ == message@,
        r.details == details,
{
    log_entry_at(now_rfc3339(), level, message, details)
}

/// A log record stamped with the current time.
pub fn stamp(rec: &LogRecord) -> (r: LogEntry)
    ensures
        r.level@ == level_text(rec.level),
        r.message@ == rec.message@,
        r.details is None,
{
    let name = rec.level.name();
    create_log_entry(name.as_str(), rec.message.as_str(), None)
}

} // verus!
