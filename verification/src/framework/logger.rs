//! The logger as the framework passes it around.

use vstd::prelude::*;
use crate::loggers::common::{LogLevel, LoggerTrait};

verus! {

/// One logged message: its level and its text.
pub type Entry = (LogLevel, Seq<char>);

/// Whether `post` is `pre` after the entries were logged, one after the
/// other.
pub open spec fn recorded_all<L: LoggerTrait>(pre: L, entries: Seq<Entry>, post: L) -> bool
    decreases entries.len(),
{
    if entries.len() == 0 {
        post == pre
    } else {
        exists|mid: L|
            {
                &&& recorded_all(pre, entries.drop_last(), mid)
                &&& #[trigger] L::recorded(mid, entries.last().0, entries.last().1, post)
            }
    }
}

/// Logging one more message extends what was logged by one entry.
pub proof fn lemma_recorded_push<L: LoggerTrait>(
    pre: L,
    entries: Seq<Entry>,
    mid: L,
    level: LogLevel,
    message: Seq<char>,
    post: L,
)
    requires
        recorded_all(pre, entries, mid),
        L::recorded(mid, level, message, post),
    ensures
        recorded_all(pre, entries.push((level, message)), post),
{
    let all = entries.push((level, message));
    assert(all.drop_last() == entries);
    assert(all.last() == (level, message));
    assert(recorded_all(pre, all.drop_last(), mid));
    assert(L::recorded(mid, all.last().0, all.last().1, post));
}

/// A handle on some logger.
pub struct Logger<L: LoggerTrait> {
    pub inner: L,
}

impl<L: LoggerTrait> Logger<L> {
    /// A handle on `logger`.
    pub fn new(logger: L) -> (l: Self)
        ensures
            l.inner == logger,
    {
        Logger { inner: logger }
    }

    /// A handle on a copy of the logger.
    pub fn clone(&self) -> (l: Self) where L: Clone
        ensures
            cloned(self.inner, l.inner),
    {
        Logger { inner: self.inner.clone() }
    }

    /// Logs `message` at `level`.
    pub fn log(&mut self, level: &LogLevel, message: &str)
        ensures
            L::recorded(old(self).inner, *level, message@, final(self).inner),
    {
        self.inner.log(level, message)
    }

    /// Logs `message` at `Trace`.
    pub fn trace(&mut self, message: &str)
        ensures
            L::recorded(old(self).inner, LogLevel::Trace, message@, final(self).inner),
    {
        self.inner.trace(message)
    }

    /// Logs `message` at `Debug`.
    pub fn debug(&mut self, message: &str)
        ensures
            L::recorded(old(self).inner, LogLevel::Debug, message@, final(self).inner),
    {
        self.inner.debug(message)
    }

    /// Logs `message` at `Info`.
    pub fn info(&mut self, message: &str)
        ensures
            L::recorded(old(self).inner, LogLevel::Info, message@, final(self).inner),
    {
        self.inner.info(message)
    }

    /// Logs `message` at `Warning`.
    pub fn warning(&mut self, message: &str)
        ensures
            L::recorded(old(self).inner, LogLevel::Warning, message@, final(self).inner),
    {
        self.inner.warning(message)
    }

    /// Logs `message` at `Error`.
    pub fn error(&mut self, message: &str)
        ensures
            L::recorded(old(self).inner, LogLevel::Error, message@, final(self).inner),
    {
        self.inner.error(message)
    }
}

} // verus!
