//! Decisions of the console logger: which records a level filter lets
//! through, which color a level is written in, and how a filter name from
//! the environment is read.

use vstd::prelude::*;

verus! {

/// A log record's severity, most severe first.
#[derive(Clone, Copy, Debug, PartialEq, Eq, Structural)]
pub enum LogLevel {
    Error,
    Warn,
    Info,
    Debug,
    Trace,
}

/// The logger's threshold: everything at most as verbose passes.
#[derive(Clone, Copy, Debug, PartialEq, Eq, Structural)]
pub enum LogFilter {
    Off,
    Error,
    Warn,
    Info,
    Debug,
    Trace,
}

/// The verbosity rank of a level.
pub open spec fn level_rank(l: LogLevel) -> int {
    match l {
        LogLevel::Error => 1,
        LogLevel::Warn => 2,
        LogLevel::Info => 3,
        LogLevel::Debug => 4,
        LogLevel::Trace => 5,
    }
}

/// The verbosity rank of a filter.
pub open spec fn filter_rank(f: LogFilter) -> int {
    match f {
        LogFilter::Off => 0,
        LogFilter::Error => 1,
        LogFilter::Warn => 2,
        LogFilter::Info => 3,
        LogFilter::Debug => 4,
        LogFilter::Trace => 5,
    }
}

/// Whether a record at `level` passes the threshold `max`.
pub fn enabled(level: LogLevel, max: LogFilter) -> (r: bool)
    ensures
        r == (level_rank(level) <= filter_rank(max)),
{
    let lr: u8 = match level {
        LogLevel::Error => 1,
        LogLevel::Warn => 2,
        LogLevel::Info => 3,
        LogLevel::Debug => 4,
        LogLevel::Trace => 5,
    };
    let fr: u8 = match max {
        LogFilter::Off => 0,
        LogFilter::Error => 1,
        LogFilter::Warn => 2,
        LogFilter::Info => 3,
        LogFilter::Debug => 4,
        LogFilter::Trace => 5,
    };
    lr <= fr
}

/// The ANSI color escape a level is written in; traces are uncolored.
pub open spec fn spec_color(l: LogLevel) -> Seq<char> {
    match l {
        LogLevel::Error => "\x1B[31m"@,
        LogLevel::Warn => "\x1B[33m"@,
        LogLevel::Info => "\x1B[37m"@,
        LogLevel::Debug => "\x1B[34m"@,
        LogLevel::Trace => ""@,
    }
}

/// The ANSI color escape for a level.
pub fn color_code(l: LogLevel) -> (r: &'static str)
    ensures
        r@ == spec_color(l),
{
    match l {
        LogLevel::Error => "\x1B[31m",
        LogLevel::Warn => "\x1B[33m",
        LogLevel::Info => "\x1B[37m",
        LogLevel::Debug => "\x1B[34m",
        LogLevel::Trace => "",
    }
}

/// How a filter name read from the environment is understood; anything
/// unrecognized falls back to the most verbose filter.
pub open spec fn spec_filter_from_name(s: Seq<char>) -> LogFilter {
    if s == "error"@ {
        LogFilter::Error
    } else if s == "warn"@ {
        LogFilter::Warn
    } else if s == "info"@ {
        LogFilter::Info
    } else if s == "debug"@ {
        LogFilter::Debug
    } else {
        LogFilter::Trace
    }
}

/// Reads a filter name, falling back to the most verbose filter.
pub fn filter_from_name(s: &str) -> (r: LogFilter)
    ensures
        r == spec_filter_from_name(s@),
{
    if crate::text::str_eq(s, "error") {
        LogFilter::Error
    } else if crate::text::str_eq(s, "warn") {
        LogFilter::Warn
    } else if crate::text::str_eq(s, "info") {
        LogFilter::Info
    } else if crate::text::str_eq(s, "debug") {
        LogFilter::Debug
    } else {
        LogFilter::Trace
    }
}

} // verus!
