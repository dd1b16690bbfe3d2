//! Indented formatting: prefixing every line of a multi-line body, with a
//! distinct prefix for lines after the first.

use vstd::prelude::*;

use crate::strkit::{push_char, push_str};

verus! {

/// The pair of prefixes an indented rendering uses.
#[derive(Clone, PartialEq, Eq, Debug)]
pub struct Indent {
    /// Prefix on all lines.
    pub base: String,
    /// Prefix on all lines after the first.
    pub secondary: String,
}

/// State of the segment splitter: the segment being built and the
/// segments already complete.
pub struct SegState {
    pub buf: Seq<char>,
    pub segs: Seq<Seq<char>>,
}

/// How one character advances the segment splitter.
pub open spec fn seg_step(st: SegState, c: char) -> SegState {
    if c == '\n' {
        SegState { buf: Seq::empty(), segs: st.segs.push(st.buf) }
    } else {
        SegState { buf: st.buf.push(c), segs: st.segs }
    }
}

/// The segment splitter run over a whole character sequence.
pub open spec fn seg_chars(st: SegState, s: Seq<char>) -> SegState
    decreases s.len(),
{
    if s.len() == 0 {
        st
    } else {
        seg_chars(seg_step(st, s[0]), s.drop_first())
    }
}

/// The text split at every `'\n'`, keeping empty segments: one segment
/// more than there are newlines, so the empty text has one empty segment.
pub open spec fn split_nl(s: Seq<char>) -> Seq<Seq<char>> {
    let st = seg_chars(SegState { buf: Seq::empty(), segs: Seq::empty() }, s);
    st.segs.push(st.buf)
}

proof fn lemma_seg_snoc(st: SegState, s: Seq<char>, c: char)
    ensures
        seg_chars(st, s.push(c)) == seg_step(seg_chars(st, s), c),
    decreases s.len(),
{
    reveal_with_fuel(seg_chars, 2);
    if s.len() == 0 {
        assert(s.push(c)[0] == c);
        assert(s.push(c).drop_first() =~= Seq::<char>::empty());
        assert(seg_chars(st, s.push(c)) == seg_chars(seg_step(st, c), Seq::<char>::empty()));
    } else {
        assert(s.push(c)[0] == s[0]);
        assert(s.push(c).drop_first() =~= s.drop_first().push(c));
        lemma_seg_snoc(seg_step(st, s[0]), s.drop_first(), c);
        assert(seg_chars(st, s.push(c)) == seg_chars(seg_step(st, s[0]), s.drop_first().push(c)));
        assert(seg_chars(st, s) == seg_chars(seg_step(st, s[0]), s.drop_first()));
    }
}

/// Split text at every newline, keeping empty segments.
fn split_nl_exec(s: &str) -> (segs: Vec<String>)
    ensures
        segs.deep_view() == split_nl(s@),
{
    let mut segs: Vec<String> = Vec::new();
    let mut buf = String::new();

    let n = s.unicode_len();
    let mut i: usize = 0;
    proof {
        assert(s@.take(0) =~= Seq::<char>::empty());
        assert(segs.deep_view() =~= Seq::<Seq<char>>::empty());
    }
    while i < n
        invariant
            n == s@.len(),
            i <= n,
            seg_chars(SegState { buf: Seq::empty(), segs: Seq::empty() }, s@.take(i as int)) == (
            SegState { buf: buf@, segs: segs.deep_view() }),
        decreases n - i,
    {
        let c = s.get_char(i);
        proof {
            assert(s@.take(i + 1 as int) =~= s@.take(i as int).push(s@[i as int]));
            lemma_seg_snoc(
                SegState { buf: Seq::empty(), segs: Seq::empty() },
                s@.take(i as int),
                c,
            );
        }
        if c == '\n' {
            let ghost prev = segs.deep_view();
            let ghost seg = buf@;
            segs.push(buf);
            proof {
                assert(segs.deep_view() =~= prev.push(seg));
            }
            buf = String::new();
        } else {
            push_char(&mut buf, c);
        }
        i = i + 1;
    }
    proof {
        assert(s@.take(n as int) =~= s@);
    }
    let ghost prev = segs.deep_view();
    let ghost seg = buf@;
    segs.push(buf);
    proof {
        assert(segs.deep_view() =~= prev.push(seg));
    }
    segs
}

/// The mathematical state of an `IndentWriter`: the text written so far
/// and the two formatting flags.
pub struct WriterState {
    pub inner: Seq<char>,
    pub newline: bool,
    pub firstline: bool,
}

/// What `maybe_indent` does: at the start of a line, write the base
/// prefix, and the secondary prefix too on every line after the first.
pub open spec fn spec_maybe_indent(base: Seq<char>, secondary: Seq<char>, st: WriterState) -> WriterState {
    if st.newline {
        if st.firstline {
            WriterState { inner: st.inner + base, newline: false, firstline: false }
        } else {
            WriterState { inner: st.inner + base + secondary, newline: false, firstline: false }
        }
    } else {
        st
    }
}

/// Writing the first segment of a string: indent if due, then the
/// segment's characters.
pub open spec fn spec_write_first(base: Seq<char>, secondary: Seq<char>, st: WriterState, seg: Seq<char>) -> WriterState {
    let st1 = spec_maybe_indent(base, secondary, st);
    WriterState { inner: st1.inner + seg, newline: st1.newline, firstline: st1.firstline }
}

/// Writing a further segment: the newline that preceded it, then as the
/// first.
pub open spec fn spec_write_next(base: Seq<char>, secondary: Seq<char>, st: WriterState, seg: Seq<char>) -> WriterState {
    let st0 = WriterState { inner: st.inner + seq!['\n'], newline: true, firstline: st.firstline };
    spec_write_first(base, secondary, st0, seg)
}

/// Writing every further segment in turn.
pub open spec fn spec_write_rest(base: Seq<char>, secondary: Seq<char>, st: WriterState, segs: Seq<Seq<char>>) -> WriterState
    decreases segs.len(),
{
    if segs.len() == 0 {
        st
    } else {
        spec_write_rest(base, secondary, spec_write_next(base, secondary, st, segs[0]), segs.drop_first())
    }
}

/// What writing a whole string does to the writer.
pub open spec fn spec_write_str(base: Seq<char>, secondary: Seq<char>, st: WriterState, s: Seq<char>) -> WriterState {
    let segs = split_nl(s);
    spec_write_rest(base, secondary, spec_write_first(base, secondary, st, segs[0]), segs.drop_first())
}

/// A writer that puts the indent's prefixes at the start of every line
/// written through it, accumulating into a string.
pub struct IndentWriter {
    pub indent: Indent,
    pub inner: String,
    pub newline: bool,
    pub firstline: bool,
}

impl IndentWriter {
    /// The writer's mathematical state.
    pub open spec fn model(&self) -> WriterState {
        WriterState { inner: self.inner@, newline: self.newline, firstline: self.firstline }
    }

    /// A fresh writer: nothing written, at the start of the first line.
    pub fn new(indent: Indent) -> (w: IndentWriter)
        ensures
            w.indent == indent,
            w.model() == (WriterState { inner: Seq::<char>::empty(), newline: true, firstline: true }),
    {
        IndentWriter { indent, inner: String::new(), newline: true, firstline: true }
    }

    /// At the start of a line, write the prefixes that line is owed.
    fn maybe_indent(&mut self)
        ensures
            final(self).indent == old(self).indent,
            final(self).model() == spec_maybe_indent(
                old(self).indent.base@,
                old(self).indent.secondary@,
                old(self).model(),
            ),
    {
        if self.newline {
            let base = self.indent.base.clone();
            push_str(&mut self.inner, base.as_str());
            if self.firstline {
                self.firstline = false;
            } else {
                let secondary = self.indent.secondary.clone();
                push_str(&mut self.inner, secondary.as_str());
            }
            self.newline = false;
        }
    }

    /// Write one character; a newline leaves the writer owing the next
    /// line its prefixes.
    pub fn write_char(&mut self, c: char)
        ensures
            final(self).indent == old(self).indent,
            final(self).model() == (WriterState {
                inner: old(self).model().inner.push(c),
                newline: if c == '\n' {
                    true
                } else {
                    old(self).model().newline
                },
                firstline: old(self).model().firstline,
            }),
    {
        push_char(&mut self.inner, c);
        if c == '\n' {
            self.newline = true;
        }
    }

    /// Write a string, indenting each of its lines.
    pub fn write_str(&mut self, s: &str)
        ensures
            final(self).indent == old(self).indent,
            final(self).model() == spec_write_str(
                old(self).indent.base@,
                old(self).indent.secondary@,
                old(self).model(),
                s@,
            ),
    {
        let ghost base = self.indent.base@;
        let ghost secondary = self.indent.secondary@;
        let ghost target = spec_write_str(base, secondary, self.model(), s@);
        let segs = split_nl_exec(s);
        let ghost sv = segs.deep_view();

        let n = segs.len();
        proof {
            assert(sv.len() >= 1);
        }
        let mut i: usize = 0;
        let ghost m0 = self.model();
        self.maybe_indent();
        push_str(&mut self.inner, segs[0].as_str());
        proof {
            assert(segs[0]@ == sv[0]);
            assert(self.model().inner =~= spec_write_first(base, secondary, m0, sv[0]).inner);
            assert(self.model() == spec_write_first(base, secondary, m0, sv[0]));
            assert(sv.drop_first() =~= sv.skip(1));
        }
        i = 1;
        while i < n
            invariant
                n == sv.len(),
                sv == segs.deep_view(),
                n == segs@.len(),
                1 <= i <= n,
                self.indent == old(self).indent,
                base == self.indent.base@,
                secondary == self.indent.secondary@,
                target == spec_write_rest(base, secondary, self.model(), sv.skip(i as int)),
            decreases n - i,
        {
            proof {
                assert(sv.skip(i as int)[0] == sv[i as int]);
                assert(sv.skip(i as int).drop_first() =~= sv.skip(i + 1 as int));
            }
            let ghost m0 = self.model();
            self.write_char('\n');
            proof {
                assert(self.model().inner =~= m0.inner + seq!['\n']);
            }
            self.maybe_indent();
            push_str(&mut self.inner, segs[i].as_str());
            proof {
                assert(segs[i as int]@ == sv[i as int]);
                assert(self.model().inner =~= spec_write_next(base, secondary, m0, sv[i as int]).inner);
                assert(self.model() == spec_write_next(base, secondary, m0, sv[i as int]));
            }
            i = i + 1;
        }
        proof {
            assert(sv.skip(n as int) =~= Seq::<Seq<char>>::empty());
        }
    }
}

/// An indent paired with a body to render under it.
pub struct IndentDisplay {
    pub indent: Indent,
    pub body: String,
}

impl IndentDisplay {
    /// The rendered text: the body with every line prefixed.
    pub fn render(&self) -> (out: String)
        ensures
            out@ == spec_write_str(
                self.indent.base@,
                self.indent.secondary@,
                WriterState { inner: Seq::<char>::empty(), newline: true, firstline: true },
                self.body@,
            ).inner,
    {
        let mut w = IndentWriter::new(
            Indent { base: self.indent.base.clone(), secondary: self.indent.secondary.clone() },
        );
        let body = self.body.clone();
        w.write_str(body.as_str());
        w.inner
    }
}

} // verus!
