use vstd::prelude::*;

use vstd::string::StringExecFns;
use crate::time::{is_stamp, local_seconds, now};

verus! {

#[derive(Clone, Copy, Debug, PartialEq, Eq, Structural)]
pub enum LogLevel {
    Info,
    Error,
}

/// One log line: when, how grave, and what.
pub struct Log {
    pub level: LogLevel,
    pub time: String,
    pub data: String,
}

/// `<time> INFO: <data>` or `<time> ERROR: <data>`.
pub open spec fn log_text(l: Log) -> Seq<char> {
    l.time@ + (if l.level == LogLevel::Info {
        " INFO: "@
    } else {
        " ERROR: "@
    }) + l.data@
}

impl Log {
    fn at(level: LogLevel, data: String, unix_seconds: u64, timezone: i32) -> (r: Log)
        ensures
            r.level == level,
            r.data@ == data@,
            is_stamp(r.time@, local_seconds(unix_seconds, timezone)),
    {
        Log { level, time: now(unix_seconds, timezone), data }
    }

    /// An information line, stamped with the local time for a clock that
    /// reads `unix_seconds`.
    pub fn info(data: String, unix_seconds: u64, timezone: i32) -> (r: Log)
        ensures
            r.level == LogLevel::Info,
            r.data@ == data@,
            is_stamp(r.time@, local_seconds(unix_seconds, timezone)),
    {
        Self::at(LogLevel::Info, data, unix_seconds, timezone)
    }

    /// An error line, stamped with the local time for a clock that reads
    /// `unix_seconds`.
    pub fn error(data: String, unix_seconds: u64, timezone: i32) -> (r: Log)
        ensures
            r.level == LogLevel::Error,
            r.data@ == data@,
            is_stamp(r.time@, local_seconds(unix_seconds, timezone)),
    {
        Self::at(LogLevel::Error, data, unix_seconds, timezone)
    }

    /// The text of the line.
    pub fn to_string(&self) -> (r: String)
        ensures
            r@ == log_text(*self),
    {
        let mut s = self.time.clone();
        match self.level {
            LogLevel::Info => s.append(" INFO: "),
            LogLevel::Error => s.append(" ERROR: "),
        }
        s.append(self.data.as_str());
        s
    }
}

} // verus!
