//! The logging-verbosity store behind the node's `log` command: a level
//! that one command sets and another reads back. Formatting and the
//! output path live outside this crate.

use vstd::prelude::*;

verus! {

/// A logging verbosity level, from the most severe to the most verbose.
#[derive(Clone, Copy, Debug, PartialEq, Eq, Structural)]
pub enum LogLevel {
    /// Errors only.
    Error,
    /// Warnings and up.
    Warn,
    /// Informational output and up.
    Info,
    /// Debugging output and up.
    Debug,
    /// Everything.
    Trace,
}

/// The rank a level is stored under; more verbose levels rank higher.
pub open spec fn spec_level_index(l: LogLevel) -> int {
    match l {
        LogLevel::Error => 1,
        LogLevel::Warn => 2,
        LogLevel::Info => 3,
        LogLevel::Debug => 4,
        LogLevel::Trace => 5,
    }
}

/// The rank a level is stored under, as executable code.
pub fn level_index(l: LogLevel) -> (r: usize)
    ensures
        r == spec_level_index(l),
{
    match l {
        LogLevel::Error => 1,
        LogLevel::Warn => 2,
        LogLevel::Info => 3,
        LogLevel::Debug => 4,
        LogLevel::Trace => 5,
    }
}

/// The logger's state: the rank of the enabled level, 0 until one is
/// set.
pub struct UsbSerialLogger {
    enabled_level: usize,
}

impl UsbSerialLogger {
    /// The stored rank.
    pub closed spec fn spec_enabled_level(&self) -> int {
        self.enabled_level as int
    }

    /// Creates the logger with no level set yet; `set_level` must run
    /// before `get_level` may be asked.
    pub fn new() -> (l: UsbSerialLogger)
        ensures
            l.spec_enabled_level() == 0,
    {
        UsbSerialLogger { enabled_level: 0 }
    }

    /// Stores `new_level` as the enabled level.
    pub fn set_level(&mut self, new_level: LogLevel)
        ensures
            final(self).spec_enabled_level() == spec_level_index(new_level),
    {
        self.enabled_level = level_index(new_level);
    }

    /// Reads the enabled level back. A level must have been set: no
    /// stored rank outside the five levels can be answered.
    pub fn get_level(&self) -> (r: LogLevel)
        requires
            1 <= self.spec_enabled_level() <= 5,
        ensures
            spec_level_index(r) == self.spec_enabled_level(),
    {
        if self.enabled_level == 1 {
            LogLevel::Error
        } else if self.enabled_level == 2 {
            LogLevel::Warn
        } else if self.enabled_level == 3 {
            LogLevel::Info
        } else if self.enabled_level == 4 {
            LogLevel::Debug
        } else {
            LogLevel::Trace
        }
    }

    /// True when a record at `level` is to be emitted: its rank does not
    /// exceed the enabled rank.
    pub fn enabled(&self, level: LogLevel) -> (r: bool)
        ensures
            r == (spec_level_index(level) <= self.spec_enabled_level()),
    {
        level_index(level) <= self.enabled_level
    }
}

} // verus!
