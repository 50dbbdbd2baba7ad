//! The lines of the log: which are shown, and how they look.

use crate::text::{decimal, push_char, push_decimal};
use vstd::prelude::*;
use vstd::string::*;

verus! {

/// How grave a line of the log is.
#[derive(Debug, PartialEq, Eq, Clone, Copy, Structural)]
pub enum Level {
    Trace,
    Info,
    Warning,
    Error,
    Fatal,
}

/// `count` spaces.
pub open spec fn spaces(count: nat) -> Seq<char> {
    Seq::new(count, |i: int| ' ')
}

/// `s` in the middle of a field of `width` characters: as many spaces
/// before it as after it, or one less; `s` itself where it is no shorter
/// than the field.
pub open spec fn centered(s: Seq<char>, width: nat) -> Seq<char> {
    if s.len() >= width {
        s
    } else {
        spaces(((width - s.len()) / 2) as nat) + s + spaces(((width - s.len() + 1) / 2) as nat)
    }
}

/// `s` at the right of a field of `width` characters; `s` itself where it
/// is no shorter than the field.
pub open spec fn right_aligned(s: Seq<char>, width: nat) -> Seq<char> {
    if s.len() >= width {
        s
    } else {
        spaces((width - s.len()) as nat) + s
    }
}

/// A line of the log: the name of the logger, the milliseconds since it
/// was made, the level and the content.
pub open spec fn log_line(
    name: Seq<char>,
    elapsed_millis: u128,
    level: Level,
    content: Seq<char>,
) -> Seq<char> {
    "["@ + centered(name, 7) + "] "@ + right_aligned(decimal(elapsed_millis as nat), 4) + " "@
        + centered(level.spec_name(), 7) + " "@ + content
}

/// Appends `count` spaces to `s`.
fn push_spaces(s: &mut String, count: usize)
    ensures
        final(s)@ == old(s)@ + spaces(count as nat),
{
    let mut i: usize = 0;
    assert(old(s)@ + spaces(0) =~= old(s)@);
    while i < count
        invariant
            i <= count,
            s@ == old(s)@ + spaces(i as nat),
        decreases count - i,
    {
        assert((old(s)@ + spaces(i as nat)).push(' ') =~= old(s)@ + spaces((i + 1) as nat));
        push_char(s, ' ');
        i += 1;
    }
}

/// Appends `text` to `s`, in the middle of a field of `width` characters.
fn push_centered(s: &mut String, text: &str, width: usize)
    ensures
        final(s)@ == old(s)@ + centered(text@, width as nat),
{
    let len: usize = text.unicode_len();
    if len >= width {
        s.append(text);
    } else {
        let padding: usize = width - len;
        push_spaces(s, padding / 2);
        s.append(text);
        push_spaces(s, padding - padding / 2);
        assert(s@ =~= old(s)@ + centered(text@, width as nat));
    }
}

/// Appends `text` to `s`, at the right of a field of `width` characters.
fn push_right_aligned(s: &mut String, text: &str, width: usize)
    ensures
        final(s)@ == old(s)@ + right_aligned(text@, width as nat),
{
    let len: usize = text.unicode_len();
    if len < width {
        push_spaces(s, width - len);
    }
    s.append(text);
    assert(s@ =~= old(s)@ + right_aligned(text@, width as nat));
}

impl Level {
    /// The rank of the level, from 1 for the least grave to 5.
    pub open spec fn spec_value(self) -> u32 {
        match self {
            Level::Trace => 1,
            Level::Info => 2,
            Level::Warning => 3,
            Level::Error => 4,
            Level::Fatal => 5,
        }
    }

    /// The name of the level in a line of the log.
    pub open spec fn spec_name(self) -> Seq<char> {
        match self {
            Level::Trace => "TRACE"@,
            Level::Info => "INFO"@,
            Level::Warning => "WARNING"@,
            Level::Error => "ERROR"@,
            Level::Fatal => "FATAL"@,
        }
    }

    /// The rank of the level, from 1 for the least grave to 5.
    pub fn as_value(&self) -> (r: u32)
        ensures
            r == self.spec_value(),
    {
        match self {
            Level::Trace => 1,
            Level::Info => 2,
            Level::Warning => 3,
            Level::Error => 4,
            Level::Fatal => 5,
        }
    }

    /// The name of the level in a line of the log.
    pub fn to_str(&self) -> (r: &'static str)
        ensures
            r@ == self.spec_name(),
    {
        match self {
            Level::Trace => "TRACE",
            Level::Info => "INFO",
            Level::Warning => "WARNING",
            Level::Error => "ERROR",
            Level::Fatal => "FATAL",
        }
    }

    /// The level of the rank `v`.
    pub fn from(v: u32) -> (r: Level)
        requires
            1 <= v <= 5,
        ensures
            r.spec_value() == v,
    {
        if v == 1 {
            Level::Trace
        } else if v == 2 {
            Level::Info
        } else if v == 3 {
            Level::Warning
        } else if v == 4 {
            Level::Error
        } else {
            Level::Fatal
        }
    }
}

/// What makes the lines of the log of one program. Showing them, and
/// telling the time, is left to its user.
#[derive(Debug, Clone)]
pub struct Logger {
    pub name: String,
    pub min_level: Level,
}

impl Logger {
    /// A logger of the given name that shows the lines of `min_level` and
    /// of graver levels.
    pub fn new(name: String, min_level: Level) -> (r: Logger)
        ensures
            r.name == name,
            r.min_level == min_level,
    {
        Logger { name, min_level }
    }

    /// The line to show for `content` at `level`, `elapsed_millis` after
    /// the logger was made; none where the level is less grave than the
    /// least that the logger shows.
    pub fn print_log(&self, elapsed_millis: u128, level: &Level, content: &str) -> (r: Option<
        String,
    >)
        ensures
            match r {
                Some(line) => level.spec_value() >= self.min_level.spec_value() && line@
                    == log_line(self.name@, elapsed_millis, *level, content@),
                None => level.spec_value() < self.min_level.spec_value(),
            },
    {
        if level.as_value() >= self.min_level.as_value() {
            let mut line = "[".to_owned();
            push_centered(&mut line, self.name.as_str(), 7);
            line.append("] ");
            let mut millis = String::new();
            push_decimal(&mut millis, elapsed_millis);
            assert(millis@ =~= decimal(elapsed_millis as nat));
            push_right_aligned(&mut line, millis.as_str(), 4);
            line.append(" ");
            push_centered(&mut line, level.to_str(), 7);
            line.append(" ");
            line.append(content);
            Some(line)
        } else {
            None
        }
    }

    /// The line to show for `content` as a trace.
    pub fn trace(&self, elapsed_millis: u128, content: &str) -> (r: Option<String>)
        ensures
            match r {
                Some(line) => Level::Trace.spec_value() >= self.min_level.spec_value() && line@
                    == log_line(self.name@, elapsed_millis, Level::Trace, content@),
                None => Level::Trace.spec_value() < self.min_level.spec_value(),
            },
    {
        self.print_log(elapsed_millis, &Level::Trace, content)
    }

    /// The line to show for `content` as information.
    pub fn info(&self, elapsed_millis: u128, content: &str) -> (r: Option<String>)
        ensures
            match r {
                Some(line) => Level::Info.spec_value() >= self.min_level.spec_value() && line@
                    == log_line(self.name@, elapsed_millis, Level::Info, content@),
                None => Level::Info.spec_value() < self.min_level.spec_value(),
            },
    {
        self.print_log(elapsed_millis, &Level::Info, content)
    }
}

} // verus!
