//! Verbosity of the file engine's own log.

use vstd::prelude::*;

verus! {

/// Set the log level based on desired verbosity.
#[derive(Debug, PartialEq, Eq, Structural, Clone, Copy)]
pub enum LogLevel {
    /// No logs will be generated.
    Off,
    /// Log errors only.
    Error,
    /// Log errors and warnings
    Warn,
    /// Log errors, warnings, and general information
    Info,
    /// Log verbose messages, errors, warnings, and general information
    Verbose,
    /// Log everything
    Debug,
}

impl LogLevel {
    /// The engine's number for this level: 0 for `Off`, and one more for
    /// each level that logs more.
    pub open spec fn level(self) -> u32 {
        match self {
            LogLevel::Off => 0,
            LogLevel::Error => 1,
            LogLevel::Warn => 2,
            LogLevel::Info => 3,
            LogLevel::Verbose => 4,
            LogLevel::Debug => 5,
        }
    }

    /// The engine's number for this level.
    pub fn to_slow5_log_lvl(&self) -> (level: u32)
        ensures
            level == self.level(),
            level <= 5,
    {
        match self {
            LogLevel::Off => 0,
            LogLevel::Error => 1,
            LogLevel::Warn => 2,
            LogLevel::Info => 3,
            LogLevel::Verbose => 4,
            LogLevel::Debug => 5,
        }
    }
}

/// A level that logs more has a larger number, and no two levels share one.
pub proof fn lemma_levels_distinct(a: LogLevel, b: LogLevel)
    ensures
        a.level() == b.level() <==> a == b,
{
}

} // verus!
