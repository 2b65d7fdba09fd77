//! Log levels.

use vstd::prelude::*;

verus! {

/// How much is logged, as the command line says it.
#[derive(Debug, Clone, Copy, PartialEq, Eq, Structural)]
pub enum LogLevel {
    Info,
    Debug,
    Trace,
    Off,
}

/// How much a logger logs. A logger that is off has none.
#[derive(Debug, Clone, Copy, PartialEq, Eq, Structural)]
pub enum LogVerbosity {
    Info,
    Debug,
    Trace,
}

impl LogLevel {
    /// The verbosity of a level.
    pub open spec fn verbosity(self) -> Option<LogVerbosity> {
        match self {
            LogLevel::Info => Some(LogVerbosity::Info),
            LogLevel::Debug => Some(LogVerbosity::Debug),
            LogLevel::Trace => Some(LogVerbosity::Trace),
            LogLevel::Off => None,
        }
    }
}

impl From<LogLevel> for Option<LogVerbosity> {
    fn from(arg: LogLevel) -> Self {
        match arg {
            LogLevel::Info => Some(LogVerbosity::Info),
            LogLevel::Debug => Some(LogVerbosity::Debug),
            LogLevel::Trace => Some(LogVerbosity::Trace),
            LogLevel::Off => None,
        }
    }
}

impl vstd::std_specs::convert::FromSpecImpl<LogLevel> for Option<LogVerbosity> {
    open spec fn obeys_from_spec() -> bool {
        true
    }

    open spec fn from_spec(arg: LogLevel) -> Self {
        arg.verbosity()
    }
}

/// Logging is off at the level `Off` alone, and every other level logs as much as its name says.
pub proof fn law_levels_log_what_they_say(level: LogLevel)
    ensures
        level.verbosity() is None <==> level is Off,
        level is Info ==> level.verbosity() == Some(LogVerbosity::Info),
        level is Debug ==> level.verbosity() == Some(LogVerbosity::Debug),
        level is Trace ==> level.verbosity() == Some(LogVerbosity::Trace),
{
}

} // verus!
