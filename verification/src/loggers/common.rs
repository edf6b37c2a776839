//! Severity levels and the interface of a logger.

use vstd::prelude::*;

verus! {

/// Severity of a log message, from the least to the most severe.
#[derive(Debug, Clone, Copy, PartialEq, Eq, PartialOrd, Ord, Structural)]
pub enum LogLevel {
    Trace,
    Debug,
    Info,
    Warning,
    Error,
}

impl LogLevel {
    /// Position of the level in the severity order, from 0 for `Trace`.
    pub open spec fn rank(self) -> int {
        match self {
            LogLevel::Trace => 0,
            LogLevel::Debug => 1,
            LogLevel::Info => 2,
            LogLevel::Warning => 3,
            LogLevel::Error => 4,
        }
    }

    /// The upper-case name that log lines show for the level.
    pub open spec fn label(self) -> Seq<char> {
        match self {
            LogLevel::Trace => "TRACE"@,
            LogLevel::Debug => "DEBUG"@,
            LogLevel::Info => "INFO"@,
            LogLevel::Warning => "WARNING"@,
            LogLevel::Error => "ERROR"@,
        }
    }

    /// Position of the level in the severity order.
    pub fn severity(&self) -> (r: u8)
        ensures
            r == self.rank(),
    {
        match self {
            LogLevel::Trace => 0,
            LogLevel::Debug => 1,
            LogLevel::Info => 2,
            LogLevel::Warning => 3,
            LogLevel::Error => 4,
        }
    }

    /// Whether this level is as severe as `floor`, or more.
    pub fn at_least(&self, floor: &LogLevel) -> (b: bool)
        ensures
            b == (self.rank() >= floor.rank()),
    {
        self.severity() >= floor.severity()
    }

    /// The upper-case name that log lines show for the level.
    pub fn name(&self) -> (s: &'static str)
        ensures
            s@ == self.label(),
    {
        match self {
            LogLevel::Trace => "TRACE",
            LogLevel::Debug => "DEBUG",
            LogLevel::Info => "INFO",
            LogLevel::Warning => "WARNING",
            LogLevel::Error => "ERROR",
        }
    }
}

/// What every logger offers: `log`, and one shorthand per level.
///
/// `recorded` says what one call of `log` does to the logger; the shorthands
/// do what `log` does at their level.
pub trait LoggerTrait: Sized {
    /// Whether `post` is `pre` after `message` was logged at `level`.
    open spec fn recorded(pre: Self, level: LogLevel, message: Seq<char>, post: Self) -> bool {
        arbitrary()
    }

    fn log(&mut self, level: &LogLevel, message: &str)
        ensures
            Self::recorded(*old(self), *level, message@, *final(self)),
    ;

    fn trace(&mut self, message: &str)
        ensures
            Self::recorded(*old(self), LogLevel::Trace, message@, *final(self)),
    {
        self.log(&LogLevel::Trace, message)
    }

    fn debug(&mut self, message: &str)
        ensures
            Self::recorded(*old(self), LogLevel::Debug, message@, *final(self)),
    {
        self.log(&LogLevel::Debug, message)
    }

    fn info(&mut self, message: &str)
        ensures
            Self::recorded(*old(self), LogLevel::Info, message@, *final(self)),
    {
        self.log(&LogLevel::Info, message)
    }

    fn warning(&mut self, message: &str)
        ensures
            Self::recorded(*old(self), LogLevel::Warning, message@, *final(self)),
    {
        self.log(&LogLevel::Warning, message)
    }

    fn error(&mut self, message: &str)
        ensures
            Self::recorded(*old(self), LogLevel::Error, message@, *final(self)),
    {
        self.log(&LogLevel::Error, message)
    }
}

} // verus!
