//! Log severities and their settings.
//!
//! Reading the environment and installing the logger are process
//! concerns and stay outside the library; what stands here is the level
//! vocabulary and how a setting's text names a level.

use vstd::prelude::*;

use crate::text::lower_of;
use crate::text::lowercase;
use crate::text::str_eq;

verus! {

/// Log severities, most verbose first, with `Off` silencing everything.
#[derive(Debug, Clone, Copy, PartialEq, Eq, Structural)]
pub enum Level {
    Trace,
    Debug,
    Info,
    Warn,
    Error,
    Off,
}

/// How logging is tuned.
#[derive(Debug, Clone)]
pub struct LoggingConfig {
    pub level: Level,
    pub json_format: bool,
    pub include_timestamp: bool,
}

impl Default for LoggingConfig {
    /// Informational logging, human-readable, with timestamps.
    fn default() -> (r: Self)
        ensures
            r.level == Level::Info,
            !r.json_format,
            r.include_timestamp,
    {
        LoggingConfig { level: Level::Info, json_format: false, include_timestamp: true }
    }
}

/// The level a lower-cased setting names; `warning` is accepted for
/// `warn`, anything unknown names none.
pub open spec fn level_of(s: Seq<char>) -> Option<Level> {
    if s == "trace"@ {
        Some(Level::Trace)
    } else if s == "debug"@ {
        Some(Level::Debug)
    } else if s == "info"@ {
        Some(Level::Info)
    } else if s == "warn"@ || s == "warning"@ {
        Some(Level::Warn)
    } else if s == "error"@ {
        Some(Level::Error)
    } else if s == "off"@ {
        Some(Level::Off)
    } else {
        None
    }
}

/// The name a level prints as.
pub open spec fn level_name(l: Level) -> Seq<char> {
    match l {
        Level::Trace => "trace"@,
        Level::Debug => "debug"@,
        Level::Info => "info"@,
        Level::Warn => "warn"@,
        Level::Error => "error"@,
        Level::Off => "off"@,
    }
}

impl Level {
    /// Parse a level setting, case-insensitively.
    pub fn from_env_str(s: &str) -> (r: Option<Level>)
        ensures
            r == level_of(lower_of(s@)),
    {
        let l = lowercase(s);
        if str_eq(l.as_str(), "trace") {
            Some(Level::Trace)
        } else if str_eq(l.as_str(), "debug") {
            Some(Level::Debug)
        } else if str_eq(l.as_str(), "info") {
            Some(Level::Info)
        } else if str_eq(l.as_str(), "warn") || str_eq(l.as_str(), "warning") {
            Some(Level::Warn)
        } else if str_eq(l.as_str(), "error") {
            Some(Level::Error)
        } else if str_eq(l.as_str(), "off") {
            Some(Level::Off)
        } else {
            None
        }
    }

    /// The level's name, as it prints.
    pub fn as_str(&self) -> (r: &'static str)
        ensures
            r@ == level_name(*self),
    {
        match self {
            Level::Trace => "trace",
            Level::Debug => "debug",
            Level::Info => "info",
            Level::Warn => "warn",
            Level::Error => "error",
            Level::Off => "off",
        }
    }
}

} // verus!
