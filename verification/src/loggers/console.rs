//! The console logger.
//!
//! It decides which messages pass its level and lays out their lines. The
//! lines wait in the logger until the program takes them out to print them.

use vstd::prelude::*;
use vstd::string::StringExecFns;
use crate::loggers::common::{LogLevel, LoggerTrait};
use crate::schema::time::{rfc3339_millis, Timestamp};

verus! {

/// A logger that keeps messages at or above its level, one line each.
#[derive(Debug)]
pub struct Console {
    level: LogLevel,
    lines: Vec<String>,
}

/// The text of a list of lines, in order.
pub open spec fn line_texts(lines: Seq<String>) -> Seq<Seq<char>> {
    Seq::new(lines.len(), |i: int| lines[i]@)
}

/// One line of console output: the time, the level and the message, with
/// ` | ` between them.
pub open spec fn console_line(stamp: Seq<char>, level: LogLevel, message: Seq<char>) -> Seq<char> {
    stamp + " | "@ + level.label() + " | "@ + message
}

/// The text that stamps a line logged at the instant: the instant in RFC
/// 3339, and nothing for an instant that cannot be written.
pub open spec fn stamp_text(at: Timestamp) -> Seq<char> {
    match rfc3339_millis(at.seconds, at.nanos) {
        Some(text) => text,
        None => Seq::empty(),
    }
}

impl Console {
    /// The lowest level the logger lets pass.
    pub closed spec fn floor(&self) -> LogLevel {
        self.level
    }

    /// The lines that wait to be printed, oldest first.
    pub closed spec fn waiting(&self) -> Seq<Seq<char>> {
        line_texts(self.lines@)
    }

    /// A console logger that lets pass `level` and above, with no line waiting.
    pub fn new(level: LogLevel) -> (c: Console)
        ensures
            c.floor() == level,
            c.waiting() == Seq::<Seq<char>>::empty(),
    {
        let c = Console { level, lines: Vec::new() };
        assert(c.waiting() =~= Seq::<Seq<char>>::empty());
        c
    }

    /// The lowest level the logger lets pass.
    pub fn level(&self) -> (l: LogLevel)
        ensures
            l == self.floor(),
    {
        self.level
    }

    /// Whether a message at `level` passes.
    pub fn enabled(&self, level: &LogLevel) -> (b: bool)
        ensures
            b == (level.rank() >= self.floor().rank()),
    {
        level.at_least(&self.level)
    }

    /// The text that stamps a line logged at the instant.
    pub fn stamp(at: &Timestamp) -> (text: String)
        ensures
            text@ == stamp_text(*at),
    {
        match at.format_rfc3339_millis() {
            Some(text) => text,
            None => String::new(),
        }
    }

    /// Lays out one line.
    pub fn render(stamp: &str, level: &LogLevel, message: &str) -> (line: String)
        ensures
            line@ == console_line(stamp@, *level, message@),
    {
        let line = stamp.to_owned();
        let line = line.concat(" | ");
        let line = line.concat(level.name());
        let line = line.concat(" | ");
        line.concat(message)
    }

    /// Hands out the waiting lines, oldest first, and keeps none.
    pub fn take_lines(&mut self) -> (lines: Vec<String>)
        ensures
            line_texts(lines@) == old(self).waiting(),
            final(self).waiting() == Seq::<Seq<char>>::empty(),
            final(self).floor() == old(self).floor(),
    {
        let mut lines: Vec<String> = Vec::new();
        std::mem::swap(&mut lines, &mut self.lines);
        assert(self.waiting() =~= Seq::<Seq<char>>::empty());
        lines
    }
}

impl LoggerTrait for Console {
    /// A message below the level changes nothing; any other puts one line
    /// behind those that wait, stamped with the instant it was logged at.
    open spec fn recorded(pre: Self, level: LogLevel, message: Seq<char>, post: Self) -> bool {
        &&& post.floor() == pre.floor()
        &&& if level.rank() >= pre.floor().rank() {
            exists|at: Timestamp|
                post.waiting() == pre.waiting().push(
                    console_line(#[trigger] stamp_text(at), level, message),
                )
        } else {
            post.waiting() == pre.waiting()
        }
    }

    fn log(&mut self, level: &LogLevel, message: &str) {
        if self.enabled(level) {
            let now = Timestamp::now();
            let stamp = Console::stamp(&now);
            let line = Console::render(stamp.as_str(), level, message);
            let ghost before = self.lines@;
            self.lines.push(line);
            assert(line_texts(self.lines@) =~= line_texts(before).push(
                console_line(stamp_text(now), *level, message@),
            ));
        }
    }
}

} // verus!
