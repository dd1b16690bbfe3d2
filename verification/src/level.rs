//! The library's model of log verbosity: the five record levels and the
//! six filter settings, ordered the way the host's logging facade orders
//! them.

use vstd::prelude::*;

verus! {

/// The level of one log record, from most to least severe.
#[derive(Clone, Copy, PartialEq, Eq, Structural, Debug, Hash)]
pub enum LogLevel {
    Error,
    Warn,
    Info,
    Debug,
    Trace,
}

/// A level's place in the order: lower is more severe.
pub open spec fn level_rank(l: LogLevel) -> int {
    match l {
        LogLevel::Error => 1,
        LogLevel::Warn => 2,
        LogLevel::Info => 3,
        LogLevel::Debug => 4,
        LogLevel::Trace => 5,
    }
}

impl LogLevel {
    /// Whether this level is at most as verbose as `other`.
    pub fn at_most(&self, other: &LogLevel) -> (r: bool)
        ensures
            r == (level_rank(*self) <= level_rank(*other)),
    {
        self.rank_exec() <= other.rank_exec()
    }

    fn rank_exec(&self) -> (r: u8)
        ensures
            r as int == level_rank(*self),
    {
        match self {
            LogLevel::Error => 1,
            LogLevel::Warn => 2,
            LogLevel::Info => 3,
            LogLevel::Debug => 4,
            LogLevel::Trace => 5,
        }
    }
}

/// The most verbose level a filter setting lets through; `Off` lets
/// nothing through.
#[derive(Clone, Copy, PartialEq, Eq, Structural, Debug, Hash)]
pub enum LevelFilter {
    Off,
    Error,
    Warn,
    Info,
    Debug,
    Trace,
}

} // verus!
