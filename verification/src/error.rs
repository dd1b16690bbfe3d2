//! Errors and warnings captured from the log stream.
//!
//! A `Problem` is one captured record of level warn or worse, together
//! with the text of the backtrace taken where it was captured.

use vstd::prelude::*;

use crate::level::LogLevel;
use crate::numfmt::{dec_u64, spec_dec};
use crate::strkit::push_str;

verus! {

/// Whether a captured problem was an error or a warning.
#[derive(Clone, Copy, PartialEq, Eq, Structural, Debug, Hash)]
pub enum ProblemLevel {
    Warn,
    Error,
}

impl ProblemLevel {
    /// The fixed status tag this level renders as.
    pub fn label(&self) -> (m: String)
        ensures
            self is Error ==> m@ == "[ ERROR ]"@,
            self is Warn ==> m@ == "[ WARN  ]"@,
    {
        match self {
            ProblemLevel::Error => "[ ERROR ]".to_owned(),
            ProblemLevel::Warn => "[ WARN  ]".to_owned(),
        }
    }
}

/// A record body rendered once, in each of the three formatting styles
/// its consumers ask for.
#[derive(Clone, PartialEq, Debug)]
pub struct PreFormatted {
    pub display: String,
    pub debug: String,
    pub debug_multiline: String,
}

impl PreFormatted {
    /// Bundle the three renderings of one body.
    pub fn new(display: String, debug: String, debug_multiline: String) -> (r: PreFormatted)
        ensures
            r.display == display,
            r.debug == debug,
            r.debug_multiline == debug_multiline,
    {
        PreFormatted { display, debug, debug_multiline }
    }
}

/// One log record, owned: its pre-rendered body and its origin metadata.
#[derive(Clone, PartialEq, Debug)]
pub struct OwnedRecord {
    pub body: PreFormatted,
    pub level: LogLevel,
    pub target: String,
    /// The path of the module the record came from, if known.
    pub module: Option<String>,
    pub file: Option<String>,
    pub line: Option<u32>,
}

/// An error or warning captured from a log line.
#[derive(Clone, Debug)]
pub struct Problem {
    pub level: ProblemLevel,
    pub record: OwnedRecord,
    pub backtrace: Option<String>,
}

/// The one-line heading of a problem: its level tag, its origin file and
/// line (`?` where unknown), and its body.
pub open spec fn spec_problem_heading(p: Problem) -> Seq<char> {
    let file = match p.record.file {
        Some(f) => f@,
        None => "?"@,
    };
    let line = match p.record.line {
        Some(n) => spec_dec(n as nat),
        None => "?"@,
    };
    let tag = if p.level is Error {
        "[ ERROR ]"@
    } else {
        "[ WARN  ]"@
    };
    tag + "["@ + file + ":"@ + line + "] "@ + p.record.body.display@
}

impl Problem {
    /// Capture a problem.
    pub fn new(level: ProblemLevel, record: OwnedRecord, backtrace: Option<String>) -> (p: Problem)
        ensures
            p.level == level,
            p.record == record,
            p.backtrace == backtrace,
    {
        Problem { level, record, backtrace }
    }

    /// Whether this is an error or a warning.
    pub fn level(&self) -> (l: ProblemLevel)
        ensures
            l == self.level,
    {
        self.level
    }

    /// The captured record.
    pub fn record(&self) -> (r: &OwnedRecord)
        ensures
            r == &self.record,
    {
        &self.record
    }

    /// The captured backtrace text, if any.
    pub fn backtrace(&self) -> (b: Option<&str>)
        ensures
            match b {
                Some(t) => self.backtrace matches Some(s) && s@ == t@,
                None => self.backtrace is None,
            },
    {
        match &self.backtrace {
            Some(s) => Some(s.as_str()),
            None => None,
        }
    }

    /// The captured backtrace, as held.
    pub fn backtrace_arc(&self) -> (b: Option<&String>)
        ensures
            match b {
                Some(t) => self.backtrace == Some(*t),
                None => self.backtrace is None,
            },
    {
        self.backtrace.as_ref()
    }

    /// Give up the problem, keeping only its record.
    pub fn into_record(self) -> (r: OwnedRecord)
        ensures
            r == self.record,
    {
        self.record
    }

    /// Render the problem: its heading, and its backtrace on the lines
    /// after it if one was captured.
    pub fn render(&self) -> (out: String)
        ensures
            match self.backtrace {
                Some(b) => out@ == spec_problem_heading(*self) + "\n"@ + b@,
                None => out@ == spec_problem_heading(*self),
            },
    {
        let mut out = match self.level {
            ProblemLevel::Error => "[ ERROR ]".to_owned(),
            ProblemLevel::Warn => "[ WARN  ]".to_owned(),
        };
        push_str(&mut out, "[");
        match &self.record.file {
            Some(f) => push_str(&mut out, f.as_str()),
            None => push_str(&mut out, "?"),
        }
        push_str(&mut out, ":");
        match self.record.line {
            Some(n) => {
                let digits = dec_u64(n as u64);
                push_str(&mut out, digits.as_str());
            },
            None => push_str(&mut out, "?"),
        }
        push_str(&mut out, "] ");
        push_str(&mut out, self.record.body.display.as_str());
        proof {
            assert(out@ =~= spec_problem_heading(*self));
        }
        match &self.backtrace {
            Some(b) => {
                push_str(&mut out, "\n");
                push_str(&mut out, b.as_str());
                proof {
                    assert(out@ =~= spec_problem_heading(*self) + "\n"@ + self.backtrace->0@);
                }
            },
            None => {},
        }
        out
    }
}

} // verus!
