//! Record severities and the filter that decides which records are written.

use vstd::prelude::*;

verus! {

/// Severity of one log record, from most severe (`Error`) to least (`Trace`).
#[derive(Clone, Copy, Debug, PartialEq, Eq, Structural)]
pub enum Level {
    Error,
    Warn,
    Info,
    Debug,
    Trace,
}

/// Threshold for records: a record at `l` is kept when `l` is at most the
/// filter, and `Off` keeps nothing.
#[derive(Clone, Copy, Debug, PartialEq, Eq, Structural)]
pub enum LevelFilter {
    Off,
    Error,
    Warn,
    Info,
    Debug,
    Trace,
}

impl Level {
    /// Numeric rank of the severity: 1 for `Error` up to 5 for `Trace`.
    pub open spec fn spec_rank(self) -> nat {
        match self {
            Level::Error => 1,
            Level::Warn => 2,
            Level::Info => 3,
            Level::Debug => 4,
            Level::Trace => 5,
        }
    }

    /// Numeric rank of the severity: 1 for `Error` up to 5 for `Trace`.
    pub fn rank(self) -> (r: usize)
        ensures
            r == self.spec_rank(),
    {
        match self {
            Level::Error => 1,
            Level::Warn => 2,
            Level::Info => 3,
            Level::Debug => 4,
            Level::Trace => 5,
        }
    }

    /// The filter that admits exactly the records this level admits.
    pub fn to_level_filter(self) -> (r: LevelFilter)
        ensures
            r.spec_rank() == self.spec_rank(),
    {
        match self {
            Level::Error => LevelFilter::Error,
            Level::Warn => LevelFilter::Warn,
            Level::Info => LevelFilter::Info,
            Level::Debug => LevelFilter::Debug,
            Level::Trace => LevelFilter::Trace,
        }
    }
}

impl LevelFilter {
    /// Numeric rank of the filter: 0 for `Off` up to 5 for `Trace`.
    pub open spec fn spec_rank(self) -> nat {
        match self {
            LevelFilter::Off => 0,
            LevelFilter::Error => 1,
            LevelFilter::Warn => 2,
            LevelFilter::Info => 3,
            LevelFilter::Debug => 4,
            LevelFilter::Trace => 5,
        }
    }

    /// Numeric rank of the filter: 0 for `Off` up to 5 for `Trace`.
    pub fn rank(self) -> (r: usize)
        ensures
            r == self.spec_rank(),
    {
        match self {
            LevelFilter::Off => 0,
            LevelFilter::Error => 1,
            LevelFilter::Warn => 2,
            LevelFilter::Info => 3,
            LevelFilter::Debug => 4,
            LevelFilter::Trace => 5,
        }
    }
}

/// Whether a record at `level` passes the filter.
pub open spec fn spec_enabled(level: Level, filter: LevelFilter) -> bool {
    level.spec_rank() <= filter.spec_rank()
}

/// Whether a record at `level` passes the filter: true exactly when the
/// level's rank is at most the filter's.
pub fn enabled_for(level: Level, filter: LevelFilter) -> (r: bool)
    ensures
        r == spec_enabled(level, filter),
{
    level.rank() <= filter.rank()
}

} // verus!
