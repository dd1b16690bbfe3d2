//! Terminal sinks: the conversions applied to a finished process's
//! captured output.
//!
//! Each sink works on the materialized text of the stream. `preadln`
//! yields the first line and fails on a stream that produced nothing at
//! all; `preadlns` yields every line; `pnonempty` reports whether anything
//! other than whitespace was produced.

use vstd::prelude::*;

use crate::strkit::{pop_char, push_char};

verus! {

/// A line terminated by `'\n'` loses that terminator, and a `'\r'`
/// immediately before it.
pub open spec fn strip_cr(l: Seq<char>) -> Seq<char> {
    if l.len() > 0 && l.last() == '\r' {
        l.drop_last()
    } else {
        l
    }
}

/// State of the line splitter: the line being built and the lines already
/// complete.
pub struct LineState {
    pub buf: Seq<char>,
    pub lines: Seq<Seq<char>>,
}

/// How one character advances the line splitter.
pub open spec fn line_step(st: LineState, c: char) -> LineState {
    if c == '\n' {
        LineState { buf: Seq::empty(), lines: st.lines.push(strip_cr(st.buf)) }
    } else {
        LineState { buf: st.buf.push(c), lines: st.lines }
    }
}

/// The line splitter run over a whole character sequence.
pub open spec fn line_chars(st: LineState, s: Seq<char>) -> LineState
    decreases s.len(),
{
    if s.len() == 0 {
        st
    } else {
        line_chars(line_step(st, s[0]), s.drop_first())
    }
}

/// The lines of a text: split at `'\n'` (a preceding `'\r'` is dropped),
/// with a final unterminated fragment kept as-is and no empty line for a
/// trailing terminator.
pub open spec fn spec_lines(s: Seq<char>) -> Seq<Seq<char>> {
    let st = line_chars(LineState { buf: Seq::empty(), lines: Seq::empty() }, s);
    if st.buf.len() > 0 {
        st.lines.push(st.buf)
    } else {
        st.lines
    }
}

proof fn lemma_line_snoc(st: LineState, s: Seq<char>, c: char)
    ensures
        line_chars(st, s.push(c)) == line_step(line_chars(st, s), c),
    decreases s.len(),
{
    reveal_with_fuel(line_chars, 2);
    if s.len() == 0 {
        assert(s.push(c)[0] == c);
        assert(s.push(c).drop_first() =~= Seq::<char>::empty());
        assert(line_chars(st, s.push(c)) == line_chars(line_step(st, c), Seq::<char>::empty()));
    } else {
        assert(s.push(c)[0] == s[0]);
        assert(s.push(c).drop_first() =~= s.drop_first().push(c));
        lemma_line_snoc(line_step(st, s[0]), s.drop_first(), c);
        assert(line_chars(st, s.push(c)) == line_chars(line_step(st, s[0]), s.drop_first().push(c)));
        assert(line_chars(st, s) == line_chars(line_step(st, s[0]), s.drop_first()));
    }
}

/// A non-empty text has at least one line.
pub proof fn lemma_lines_nonempty(s: Seq<char>)
    requires
        s.len() > 0,
    ensures
        spec_lines(s).len() > 0,
{
    lemma_line_grows(LineState { buf: Seq::empty(), lines: Seq::empty() }, s);
}

/// Running the splitter never loses completed lines, and consuming at
/// least one character guarantees a line exists or a buffer is pending.
proof fn lemma_line_grows(st: LineState, s: Seq<char>)
    ensures
        line_chars(st, s).lines.len() >= st.lines.len(),
        s.len() > 0 || st.buf.len() > 0 ==> line_chars(st, s).lines.len() > st.lines.len()
            || line_chars(st, s).buf.len() > 0,
    decreases s.len(),
{
    if s.len() > 0 {
        lemma_line_grows(line_step(st, s[0]), s.drop_first());
    }
}

/// Split captured output into its lines.
pub fn preadlns(output: &str) -> (lines: Vec<String>)
    ensures
        lines.deep_view() == spec_lines(output@),
{
    let mut lines: Vec<String> = Vec::new();
    let mut buf = String::new();

    let n = output.unicode_len();
    let mut i: usize = 0;
    proof {
        assert(output@.take(0) =~= Seq::<char>::empty());
        assert(lines.deep_view() =~= Seq::<Seq<char>>::empty());
    }
    while i < n
        invariant
            n == output@.len(),
            i <= n,
            line_chars(LineState { buf: Seq::empty(), lines: Seq::empty() }, output@.take(i as int))
                == (LineState { buf: buf@, lines: lines.deep_view() }),
        decreases n - i,
    {
        let c = output.get_char(i);
        proof {
            assert(output@.take(i + 1 as int) =~= output@.take(i as int).push(output@[i as int]));
            lemma_line_snoc(
                LineState { buf: Seq::empty(), lines: Seq::empty() },
                output@.take(i as int),
                c,
            );
        }
        if c == '\n' {
            if !buf.as_str().is_empty() {
                let last = buf.as_str().get_char(buf.as_str().unicode_len() - 1);
                if last == '\r' {
                    pop_char(&mut buf);
                }
            }
            let ghost prev = lines.deep_view();
            let ghost line = buf@;
            lines.push(buf);
            proof {
                assert(lines.deep_view() =~= prev.push(line));
            }
            buf = String::new();
        } else {
            push_char(&mut buf, c);
        }
        i = i + 1;
    }
    proof {
        assert(output@.take(n as int) =~= output@);
    }
    if !buf.as_str().is_empty() {
        let ghost prev = lines.deep_view();
        let ghost line = buf@;
        lines.push(buf);
        proof {
            assert(lines.deep_view() =~= prev.push(line));
        }
    }
    lines
}

/// Why a sink failed.
#[derive(Clone, Copy, PartialEq, Eq, Debug)]
pub enum SinkError {
    /// The stream produced no output where one line was required.
    EmptyOutput,
}

impl SinkError {
    /// The one-line abort message for this error.
    pub fn message(&self) -> (m: String)
        ensures
            m@ == "subprocess did not print anything"@,
    {
        "subprocess did not print anything".to_owned()
    }
}

/// The first line of captured output. A stream that produced nothing at
/// all is an error; a stream that produced an empty first line is not.
pub fn preadln(output: &str) -> (r: Result<String, SinkError>)
    ensures
        match r {
            Ok(line) => output@.len() > 0 && line@ == spec_lines(output@)[0],
            Err(e) => output@.len() == 0 && e == SinkError::EmptyOutput,
        },
{
    if output.is_empty() {
        Err(SinkError::EmptyOutput)
    } else {
        proof {
            lemma_lines_nonempty(output@);
        }
        let mut lines = preadlns(output);
        let first = lines.remove(0);
        Ok(first)
    }
}

/// Whether `c` has the Unicode `White_Space` property. The answer is a
/// function of the character alone.
pub uninterp spec fn unicode_whitespace(c: char) -> bool;

/// Relies on `char::is_whitespace`: true exactly for characters with the
/// Unicode `White_Space` property.
#[verifier::external_body]
pub(crate) fn char_is_whitespace(c: char) -> (r: bool)
    ensures
        r == unicode_whitespace(c),
{
    c.is_whitespace()
}

/// Whether the captured output holds anything but whitespace: what
/// remains of it after trimming both ends is non-empty.
pub fn pnonempty(output: &str) -> (r: bool)
    ensures
        r == exists|i: int| 0 <= i < output@.len() && !unicode_whitespace(#[trigger] output@[i]),
{
    let n = output.unicode_len();
    let mut i: usize = 0;
    while i < n
        invariant
            n == output@.len(),
            i <= n,
            forall|k: int| 0 <= k < i ==> unicode_whitespace(#[trigger] output@[k]),
        decreases n - i,
    {
        let c = output.get_char(i);
        if !char_is_whitespace(c) {
            return true;
        }
        i = i + 1;
    }
    false
}

} // verus!
