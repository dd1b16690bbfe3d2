//! The logger's decisions and formatting: which records pass the
//! verbosity filter, and the exact text a record renders to.
//!
//! Writing the rendered line to the terminal, and installing the logger
//! as the process-wide backend, are the host's business.

use vstd::prelude::*;

use crate::error::OwnedRecord;
use crate::indent::{Indent, IndentWriter, WriterState, spec_write_str};
use crate::level::{LevelFilter, LogLevel, level_rank};
use crate::numfmt::{dec_u64, spec_dec};
use crate::strkit::push_str;

verus! {

/// The logger's verbosity setting.
#[derive(Clone, Copy, PartialEq, Eq, Structural, Debug, Hash)]
pub enum LogMode {
    Default,
    Verbose,
    Trace,
}

impl Default for LogMode {
    fn default() -> (m: LogMode)
        ensures
            m == LogMode::Default,
    {
        LogMode::Default
    }
}

impl LogMode {
    /// The most verbose level each mode lets through.
    pub fn to_level_filter(self) -> (f: LevelFilter)
        ensures
            self is Default ==> f == LevelFilter::Info,
            self is Verbose ==> f == LevelFilter::Debug,
            self is Trace ==> f == LevelFilter::Trace,
    {
        match self {
            LogMode::Default => LevelFilter::Info,
            LogMode::Verbose => LevelFilter::Debug,
            LogMode::Trace => LevelFilter::Trace,
        }
    }

    /// The rank of the most verbose level this mode lets through.
    pub open spec fn threshold(self) -> int {
        match self {
            LogMode::Default => level_rank(LogLevel::Info),
            LogMode::Verbose => level_rank(LogLevel::Debug),
            LogMode::Trace => level_rank(LogLevel::Trace),
        }
    }
}

/// The logging backend: its verbosity mode.
#[derive(Clone, Default)]
pub struct Logger {
    pub mode: LogMode,
}

/// The colored status tag a level renders as. The tag for `Debug`
/// deliberately reads `INFO`, in blue, as the tool has always shown it.
pub open spec fn spec_status_label(level: LogLevel) -> Seq<char> {
    match level {
        LogLevel::Info => "\x1B[33m[ INFO  ]\x1B[0m"@,
        LogLevel::Warn => "\x1B[31m[ WARN  ]\x1B[0m"@,
        LogLevel::Error => "\x1B[31m[ ERROR ]\x1B[0m"@,
        LogLevel::Trace => "\x1B[36m[ TRACE ]\x1B[0m"@,
        LogLevel::Debug => "\x1B[34m[ INFO  ]\x1B[0m"@,
    }
}

/// The ANSI color code used for a level's origin fragment.
pub open spec fn spec_level_color(level: LogLevel) -> Seq<char> {
    match level {
        LogLevel::Info => "33"@,
        LogLevel::Warn => "31"@,
        LogLevel::Error => "31"@,
        LogLevel::Trace => "36"@,
        LogLevel::Debug => "34"@,
    }
}

/// Text wrapped in one ANSI color.
pub open spec fn spec_ansi(code: Seq<char>, text: Seq<char>) -> Seq<char> {
    "\x1B["@ + code + "m"@ + text + "\x1B[0m"@
}

/// The origin fragment of a rendered record: `[module:line]` in trace
/// mode (`?` where unknown), empty otherwise — wrapped, even when empty,
/// in the level's color.
pub open spec fn spec_origin(mode: LogMode, record: OwnedRecord) -> Seq<char> {
    let inner = if mode is Trace {
        let module = match record.module {
            Some(m) => m@,
            None => "?"@,
        };
        let line = match record.line {
            Some(n) => spec_dec(n as nat),
            None => "?"@,
        };
        "["@ + module + ":"@ + line + "]"@
    } else {
        Seq::<char>::empty()
    };
    spec_ansi(spec_level_color(record.level), inner)
}

/// The single logical line a record renders to, before indentation: its
/// status tag, its origin fragment, a space, and its body.
pub open spec fn spec_record_line(mode: LogMode, record: OwnedRecord) -> Seq<char> {
    spec_status_label(record.level) + spec_origin(mode, record) + " "@ + record.body.display@
}

/// The whitespace prefix for a nesting depth; past three levels it stops
/// growing and shows an ellipsis.
pub open spec fn spec_indent_prefix(indent: u32) -> Seq<char> {
    if indent == 0 {
        ""@
    } else if indent == 1 {
        "    "@
    } else if indent == 2 {
        "        "@
    } else if indent == 3 {
        "            "@
    } else {
        "           \u{2026}"@
    }
}

/// The continuation prefix put before every rendered line after the
/// first.
pub open spec fn spec_secondary_prefix() -> Seq<char> {
    "          "@
}

/// The whole rendered text of one record at one nesting depth: its
/// logical line laid out under the indent prefixes.
pub open spec fn spec_rendered_record(mode: LogMode, indent: u32, record: OwnedRecord) -> Seq<char> {
    spec_write_str(
        spec_indent_prefix(indent),
        spec_secondary_prefix(),
        WriterState { inner: Seq::<char>::empty(), newline: true, firstline: true },
        spec_record_line(mode, record),
    ).inner
}

/// The colored status tag for a level.
pub fn status_label(level: &LogLevel) -> (m: String)
    ensures
        m@ == spec_status_label(*level),
{
    match level {
        LogLevel::Info => "\x1B[33m[ INFO  ]\x1B[0m".to_owned(),
        LogLevel::Warn => "\x1B[31m[ WARN  ]\x1B[0m".to_owned(),
        LogLevel::Error => "\x1B[31m[ ERROR ]\x1B[0m".to_owned(),
        LogLevel::Trace => "\x1B[36m[ TRACE ]\x1B[0m".to_owned(),
        LogLevel::Debug => "\x1B[34m[ INFO  ]\x1B[0m".to_owned(),
    }
}

/// The whitespace prefix for a nesting depth.
pub fn indent_prefix(indent: u32) -> (m: String)
    ensures
        m@ == spec_indent_prefix(indent),
{
    if indent == 0 {
        "".to_owned()
    } else if indent == 1 {
        "    ".to_owned()
    } else if indent == 2 {
        "        ".to_owned()
    } else if indent == 3 {
        "            ".to_owned()
    } else {
        "           \u{2026}".to_owned()
    }
}

impl Logger {
    /// A logger at the given verbosity.
    pub fn new(mode: LogMode) -> (l: Logger)
        ensures
            l.mode == mode,
    {
        Logger { mode }
    }

    /// Whether a record of this level passes the verbosity filter.
    pub fn enabled(&self, level: &LogLevel) -> (r: bool)
        ensures
            r == (level_rank(*level) <= self.mode.threshold()),
    {
        match self.mode {
            LogMode::Default => level.at_most(&LogLevel::Info),
            LogMode::Verbose => level.at_most(&LogLevel::Debug),
            LogMode::Trace => level.at_most(&LogLevel::Trace),
        }
    }

    /// The origin fragment of a record under this logger's mode.
    pub fn origin_fragment(&self, record: &OwnedRecord) -> (m: String)
        ensures
            m@ == spec_origin(self.mode, *record),
    {
        let mut m = "\x1B[".to_owned();
        let code = match record.level {
            LogLevel::Info => "33",
            LogLevel::Warn => "31",
            LogLevel::Error => "31",
            LogLevel::Trace => "36",
            LogLevel::Debug => "34",
        };
        push_str(&mut m, code);
        push_str(&mut m, "m");
        match self.mode {
            LogMode::Trace => {
                push_str(&mut m, "[");
                match &record.module {
                    Some(path) => push_str(&mut m, path.as_str()),
                    None => push_str(&mut m, "?"),
                }
                push_str(&mut m, ":");
                match record.line {
                    Some(n) => {
                        let digits = dec_u64(n as u64);
                        push_str(&mut m, digits.as_str());
                    },
                    None => push_str(&mut m, "?"),
                }
                push_str(&mut m, "]");
            },
            _ => {},
        }
        push_str(&mut m, "\x1B[0m");
        proof {
            assert(m@ =~= spec_origin(self.mode, *record));
        }
        m
    }

    /// The full rendered text of a record at a nesting depth: tag,
    /// origin, body, laid out under the indent prefixes.
    pub fn format_record(&self, indent: u32, record: &OwnedRecord) -> (out: String)
        ensures
            out@ == spec_rendered_record(self.mode, indent, *record),
    {
        let mut line = status_label(&record.level);
        let origin = self.origin_fragment(record);
        push_str(&mut line, origin.as_str());
        push_str(&mut line, " ");
        push_str(&mut line, record.body.display.as_str());
        proof {
            assert(line@ =~= spec_record_line(self.mode, *record));
        }
        let mut w = IndentWriter::new(
            Indent { base: indent_prefix(indent), secondary: "          ".to_owned() },
        );
        w.write_str(line.as_str());
        w.inner
    }
}

} // verus!
