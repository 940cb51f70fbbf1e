//! The text of log lines and when the log file is rotated.
use vstd::prelude::*;
use vstd::string::*;
use crate::text::{push_zero_padded, zero_padded};

verus! {

/// Largest log file kept before it is moved aside.
pub const MAX_LOG_SIZE: u64 = 262144;

/// Severity of a log line.
#[derive(Debug, Clone, Copy, PartialEq, Eq, Structural)]
pub enum Level {
    Info,
    Warn,
    Error,
}

/// The tag of a severity in log lines.
pub open spec fn level_name(level: Level) -> Seq<char> {
    match level {
        Level::Info => "INFO"@,
        Level::Warn => "WARN"@,
        Level::Error => "ERROR"@,
    }
}

impl Level {
    /// The tag of this severity in log lines.
    pub fn as_str(self) -> (name: &'static str)
        ensures
            name@ == level_name(self),
    {
        match self {
            Level::Info => "INFO",
            Level::Warn => "WARN",
            Level::Error => "ERROR",
        }
    }
}

/// A log line: the time stamp, the tag in brackets, then the message.
pub open spec fn log_line_spec(timestamp: Seq<char>, level: Level, message: Seq<char>) -> Seq<char> {
    timestamp + " ["@ + level_name(level) + "] "@ + message
}

/// The text of a log line (without its line break).
pub fn log_line(timestamp: &str, level: Level, message: &str) -> (line: String)
    ensures
        line@ == log_line_spec(timestamp@, level, message@),
{
    let mut line = String::from_str(timestamp);
    line.append(" [");
    line.append(level.as_str());
    line.append("] ");
    line.append(message);
    line
}

/// The log file is moved aside once it grows beyond the limit.
pub fn needs_rotation(size: u64) -> (rotate: bool)
    ensures
        rotate == (size > MAX_LOG_SIZE),
{
    size > MAX_LOG_SIZE
}

/// A local time as `YYYY-MM-DD hh:mm:ss`, each field zero-padded.
pub open spec fn timestamp_spec(year: u16, month: u16, day: u16, hour: u16, minute: u16, second: u16) -> Seq<
    char,
> {
    zero_padded(year as nat, 4) + "-"@ + zero_padded(month as nat, 2) + "-"@ + zero_padded(
        day as nat,
        2,
    ) + " "@ + zero_padded(hour as nat, 2) + ":"@ + zero_padded(minute as nat, 2) + ":"@
        + zero_padded(second as nat, 2)
}

/// Formats a local time for log lines.
pub fn timestamp(year: u16, month: u16, day: u16, hour: u16, minute: u16, second: u16) -> (text:
    String)
    ensures
        text@ == timestamp_spec(year, month, day, hour, minute, second),
{
    let mut text = String::new();
    push_zero_padded(&mut text, year as u64, 4);
    text.append("-");
    push_zero_padded(&mut text, month as u64, 2);
    text.append("-");
    push_zero_padded(&mut text, day as u64, 2);
    text.append(" ");
    push_zero_padded(&mut text, hour as u64, 2);
    text.append(":");
    push_zero_padded(&mut text, minute as u64, 2);
    text.append(":");
    push_zero_padded(&mut text, second as u64, 2);
    assert(text@ =~= timestamp_spec(year, month, day, hour, minute, second));
    text
}

} // verus!
