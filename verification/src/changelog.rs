//! Parsing a changelog: grouping its lines into one entry per released
//! version.
//!
//! A heading line is a run of `#` marks, optional whitespace, and a
//! body; a heading whose body is a semantic version opens an entry, and
//! the entry collects every line until a heading of the same or shallower
//! depth, a section break (a rule of three or more dashes), or the end of
//! the text. An entry's body is trimmed and given exactly one trailing
//! newline.

use vstd::prelude::*;

use crate::sink::{char_is_whitespace, preadlns, spec_lines, unicode_whitespace};
use crate::strkit::{push_char, push_str};

verus! {

/// How many `#` marks open the line.
pub open spec fn pound_count(s: Seq<char>) -> int
    decreases s.len(),
{
    if s.len() > 0 && s[0] == '#' {
        1 + pound_count(s.drop_first())
    } else {
        0
    }
}

/// How many `-` marks open the line.
pub open spec fn dash_count(s: Seq<char>) -> int
    decreases s.len(),
{
    if s.len() > 0 && s[0] == '-' {
        1 + dash_count(s.drop_first())
    } else {
        0
    }
}

/// How many whitespace characters open the text.
pub open spec fn ws_count(s: Seq<char>) -> int
    decreases s.len(),
{
    if s.len() > 0 && unicode_whitespace(s[0]) {
        1 + ws_count(s.drop_first())
    } else {
        0
    }
}

/// How many whitespace characters end the text.
pub open spec fn trailing_ws_count(s: Seq<char>) -> int
    decreases s.len(),
{
    if s.len() > 0 && unicode_whitespace(s.last()) {
        1 + trailing_ws_count(s.drop_last())
    } else {
        0
    }
}

/// A scan that saw `i` pound marks and then stopped has counted them.
proof fn lemma_pound_count(s: Seq<char>, i: int)
    requires
        0 <= i <= s.len(),
        forall|k: int| 0 <= k < i ==> #[trigger] s[k] == '#',
        i < s.len() ==> s[i] != '#',
    ensures
        pound_count(s) == i,
    decreases i,
{
    if i > 0 {
        assert(forall|k: int| 0 <= k < i - 1 ==> #[trigger] s.drop_first()[k] == '#');
        lemma_pound_count(s.drop_first(), i - 1);
    }
}

/// A scan that saw `i` dashes and then stopped has counted them.
proof fn lemma_dash_count(s: Seq<char>, i: int)
    requires
        0 <= i <= s.len(),
        forall|k: int| 0 <= k < i ==> #[trigger] s[k] == '-',
        i < s.len() ==> s[i] != '-',
    ensures
        dash_count(s) == i,
    decreases i,
{
    if i > 0 {
        assert(forall|k: int| 0 <= k < i - 1 ==> #[trigger] s.drop_first()[k] == '-');
        lemma_dash_count(s.drop_first(), i - 1);
    }
}

/// A scan that saw `i` whitespace characters and then stopped has
/// counted the leading whitespace.
proof fn lemma_ws_count(s: Seq<char>, i: int)
    requires
        0 <= i <= s.len(),
        forall|k: int| 0 <= k < i ==> unicode_whitespace(#[trigger] s[k]),
        i < s.len() ==> !unicode_whitespace(s[i]),
    ensures
        ws_count(s) == i,
    decreases i,
{
    if i > 0 {
        assert(forall|k: int| 0 <= k < i - 1 ==> unicode_whitespace(#[trigger] s.drop_first()[k]));
        lemma_ws_count(s.drop_first(), i - 1);
    }
}

/// A scan back from the end that saw `i` whitespace characters and then
/// stopped has counted the trailing whitespace.
proof fn lemma_trailing_ws_count(s: Seq<char>, i: int)
    requires
        0 <= i <= s.len(),
        forall|k: int| s.len() - i <= k < s.len() ==> unicode_whitespace(#[trigger] s[k]),
        i < s.len() ==> !unicode_whitespace(s[s.len() - i - 1]),
    ensures
        trailing_ws_count(s) == i,
    decreases i,
{
    if i > 0 {
        assert(unicode_whitespace(s.last()));
        assert(forall|k: int|
            s.drop_last().len() - (i - 1) <= k < s.drop_last().len() ==> unicode_whitespace(
                #[trigger] s.drop_last()[k],
            ));
        lemma_trailing_ws_count(s.drop_last(), i - 1);
    }
}

/// Whether the line is a heading: it opens with at least one `#`.
pub open spec fn is_heading_line(s: Seq<char>) -> bool {
    pound_count(s) >= 1
}

/// The body of a heading line: what follows the `#` marks and the
/// whitespace after them.
pub open spec fn heading_body(s: Seq<char>) -> Seq<char> {
    let after = s.skip(pound_count(s));
    after.skip(ws_count(after))
}

/// Whether the line is a section break: a rule of three or more dashes
/// with nothing but whitespace after it.
pub open spec fn is_break_line(s: Seq<char>) -> bool {
    let dashes = dash_count(s);
    let rest = s.skip(dashes);
    dashes >= 3 && forall|k: int| 0 <= k < rest.len() ==> unicode_whitespace(#[trigger] rest[k])
}

/// Whether the text is a valid semantic version. The answer is a
/// function of the text alone.
pub uninterp spec fn is_semver_version(s: Seq<char>) -> bool;

/// Relies on `semver::Version::parse`: whether the text parses as a
/// semantic version.
#[verifier::external_body]
fn semver_valid(s: &str) -> (r: bool)
    ensures
        r == is_semver_version(s@),
{
    semver::Version::parse(s).is_ok()
}

/// One classified changelog line.
#[derive(Clone, PartialEq, Debug)]
pub enum ParsedLine {
    /// A heading: its depth and its body.
    Heading { pounds: usize, body: String },
    /// A heading whose body is a semantic version: its depth and the
    /// version text.
    VersionHeading { pounds: usize, version: String },
    /// A rule of dashes.
    SectionBreak,
    /// Anything else.
    Plain,
}

/// Classify one line, before versions are recognized: a heading, a
/// section break, or a plain line.
pub fn parse_line(line: &str) -> (r: ParsedLine)
    ensures
        is_heading_line(line@) ==> (r matches ParsedLine::Heading { pounds, body } && pounds as int
            == pound_count(line@) && body@ == heading_body(line@)),
        !is_heading_line(line@) && is_break_line(line@) ==> r == ParsedLine::SectionBreak,
        !is_heading_line(line@) && !is_break_line(line@) ==> r == ParsedLine::Plain,
{
    let n = line.unicode_len();

    let mut pounds: usize = 0;
    while pounds < n && line.get_char(pounds) == '#'
        invariant
            n == line@.len(),
            pounds <= n,
            forall|k: int| 0 <= k < pounds ==> line@[k] == '#',
        decreases n - pounds,
    {
        pounds = pounds + 1;
    }
    proof {
        lemma_pound_count(line@, pounds as int);
    }

    if pounds > 0 {
        let ghost after = line@.skip(pounds as int);
        let mut start = pounds;
        while start < n && char_is_whitespace(line.get_char(start))
            invariant
                n == line@.len(),
                pounds <= start <= n,
                after == line@.skip(pounds as int),
                forall|k: int| pounds <= k < start ==> unicode_whitespace(#[trigger] line@[k]),
            decreases n - start,
        {
            start = start + 1;
        }
        proof {
            assert(forall|k: int|
                0 <= k < start - pounds ==> after[k] == line@[k + pounds as int]);
            assert(start < n ==> after[start - pounds as int] == line@[start as int]);
            lemma_ws_count(after, start - pounds as int);
        }
        let body = line.substring_char(start, n).to_owned();
        proof {
            assert(line@.subrange(start as int, n as int) =~= after.skip(start - pounds as int));
        }
        ParsedLine::Heading { pounds, body }
    } else {
        let mut dashes: usize = 0;
        while dashes < n && line.get_char(dashes) == '-'
            invariant
                n == line@.len(),
                dashes <= n,
                forall|k: int| 0 <= k < dashes ==> line@[k] == '-',
            decreases n - dashes,
        {
            dashes = dashes + 1;
        }
        proof {
            lemma_dash_count(line@, dashes as int);
        }
        if dashes >= 3 {
            let mut j = dashes;
            let mut all_ws = true;
            while j < n
                invariant
                    n == line@.len(),
                    dashes <= j <= n,
                    all_ws == (forall|k: int|
                        dashes <= k < j ==> unicode_whitespace(#[trigger] line@[k])),
                decreases n - j,
            {
                if !char_is_whitespace(line.get_char(j)) {
                    all_ws = false;
                }
                j = j + 1;
            }
            proof {
                let rest = line@.skip(dashes as int);
                assert(forall|k: int|
                    0 <= k < rest.len() ==> rest[k] == line@[k + dashes as int]);
            }
            if all_ws {
                proof {
                    assert(is_break_line(line@));
                }
                ParsedLine::SectionBreak
            } else {
                proof {
                    let rest = line@.skip(dashes as int);
                    let k = choose|k: int|
                        dashes <= k < n && !unicode_whitespace(#[trigger] line@[k]);
                    assert(rest[k - dashes as int] == line@[k]);
                    assert(!is_break_line(line@));
                }
                ParsedLine::Plain
            }
        } else {
            ParsedLine::Plain
        }
    }
}

impl ParsedLine {
    /// Upgrade a heading to a version heading where its body is a
    /// semantic version; leave every other line as it is.
    pub fn specialize_header(&mut self)
        ensures
            match *old(self) {
                ParsedLine::Heading { pounds, body } => if is_semver_version(body@) {
                    *final(self) == (ParsedLine::VersionHeading { pounds, version: body })
                } else {
                    *final(self) == *old(self)
                },
                _ => *final(self) == *old(self),
            },
    {
        let upgrade = match &*self {
            ParsedLine::Heading { pounds, body } => {
                if semver_valid(body.as_str()) {
                    Some((*pounds, body.clone()))
                } else {
                    None
                }
            },
            _ => None,
        };
        if let Some((pounds, version)) = upgrade {
            *self = ParsedLine::VersionHeading { pounds, version };
        }
    }
}

/// The text with its leading and trailing whitespace removed.
pub open spec fn spec_trim(s: Seq<char>) -> Seq<char> {
    let a = ws_count(s);
    let b = trailing_ws_count(s);
    if a + b >= s.len() {
        Seq::empty()
    } else {
        s.subrange(a, s.len() - b)
    }
}

/// Remove leading and trailing whitespace.
fn trim_exec(s: &str) -> (r: String)
    ensures
        r@ == spec_trim(s@),
{
    let n = s.unicode_len();
    let mut a: usize = 0;
    while a < n && char_is_whitespace(s.get_char(a))
        invariant
            n == s@.len(),
            a <= n,
            forall|k: int| 0 <= k < a ==> unicode_whitespace(#[trigger] s@[k]),
        decreases n - a,
    {
        a = a + 1;
    }
    proof {
        lemma_ws_count(s@, a as int);
    }
    if a == n {
        proof {
            lemma_trailing_ws_count(s@, n as int);
        }
        String::new()
    } else {
        let mut b: usize = 0;
        while b < n && char_is_whitespace(s.get_char(n - 1 - b))
            invariant
                n == s@.len(),
                b <= n,
                forall|k: int| n - b <= k < n ==> unicode_whitespace(#[trigger] s@[k]),
            decreases n - b,
        {
            b = b + 1;
        }
        proof {
            lemma_trailing_ws_count(s@, b as int);
            assert(!unicode_whitespace(s@[a as int]));
            assert(a + b < n);
        }
        s.substring_char(a, n - b).to_owned()
    }
}

/// One entry of a parsed changelog: a released version and the note
/// under its heading.
#[derive(Clone, PartialEq, Debug)]
pub struct VersionNote {
    pub version: String,
    pub body: String,
}

impl VersionNote {
    /// The note rendered back as markdown: a four-pound heading, a blank
    /// line, and the body without its trailing newline.
    pub fn render(&self) -> (out: String)
        ensures
            self.body@.len() > 0 ==> out@ == "#### "@ + self.version@ + "\n\n"@
                + self.body@.drop_last(),
            self.body@.len() == 0 ==> out@ == "#### "@ + self.version@ + "\n\n"@,
    {
        let mut out = "#### ".to_owned();
        push_str(&mut out, self.version.as_str());
        push_str(&mut out, "\n\n");
        let n = self.body.as_str().unicode_len();
        if n > 0 {
            let trimmed = self.body.as_str().substring_char(0, n - 1);
            push_str(&mut out, trimmed);
            proof {
                assert(self.body@.subrange(0, self.body@.len() - 1) =~= self.body@.drop_last());
            }
        }
        out
    }
}

/// An entry still being collected: its version, the depth of its
/// heading, and the lines gathered so far.
pub struct PartialNote {
    pub version: Seq<char>,
    pub pounds: int,
    pub body: Seq<char>,
}

/// The builder's state: finished entries as (version, body) pairs, and
/// the entry being collected, if any.
pub struct BuildState {
    pub accum: Seq<(Seq<char>, Seq<char>)>,
    pub curr: Option<PartialNote>,
}

/// Close the open entry, if any: its body is trimmed, given one trailing
/// newline, and the entry joins the finished ones.
pub open spec fn spec_finalize(st: BuildState) -> BuildState {
    match st.curr {
        None => st,
        Some(c) => BuildState {
            accum: st.accum.push((c.version, spec_trim(c.body).push('\n'))),
            curr: None,
        },
    }
}

/// Add one line to the open entry.
pub open spec fn spec_push_line(st: BuildState, c: PartialNote, line: Seq<char>) -> BuildState {
    BuildState {
        accum: st.accum,
        curr: Some(
            PartialNote { version: c.version, pounds: c.pounds, body: c.body + line + seq!['\n'] },
        ),
    }
}

/// How one classified line advances the builder.
pub open spec fn spec_build_step(st: BuildState, line: Seq<char>) -> BuildState {
    let heading = is_heading_line(line);
    let pounds = pound_count(line);
    let body = heading_body(line);
    let version = is_semver_version(body);
    match st.curr {
        Some(c) => {
            if heading && version {
                if pounds >= c.pounds {
                    BuildState {
                        accum: spec_finalize(st).accum,
                        curr: Some(
                            PartialNote { version: body, pounds: pounds, body: Seq::empty() },
                        ),
                    }
                } else {
                    spec_push_line(st, c, line)
                }
            } else if heading {
                if pounds >= c.pounds {
                    spec_finalize(st)
                } else {
                    spec_push_line(st, c, line)
                }
            } else if is_break_line(line) {
                spec_finalize(st)
            } else {
                spec_push_line(st, c, line)
            }
        },
        None => {
            if heading && version {
                BuildState {
                    accum: st.accum,
                    curr: Some(PartialNote { version: body, pounds: pounds, body: Seq::empty() }),
                }
            } else {
                st
            }
        },
    }
}

/// The builder run over a sequence of lines.
pub open spec fn spec_build_lines(st: BuildState, lines: Seq<Seq<char>>) -> BuildState
    decreases lines.len(),
{
    if lines.len() == 0 {
        st
    } else {
        spec_build_lines(spec_build_step(st, lines[0]), lines.drop_first())
    }
}

/// The entries of a changelog text, as (version, body) pairs in order.
pub open spec fn spec_changelog(text: Seq<char>) -> Seq<(Seq<char>, Seq<char>)> {
    spec_finalize(
        spec_build_lines(
            BuildState { accum: Seq::empty(), curr: None },
            spec_lines(text),
        ),
    ).accum
}

/// An entry under construction.
struct PartialEntry {
    version: String,
    pounds: usize,
    body: String,
}

/// The (version, body) pairs of finished notes.
pub open spec fn notes_model(notes: Seq<VersionNote>) -> Seq<(Seq<char>, Seq<char>)> {
    Seq::new(notes.len(), |k: int| (notes[k].version@, notes[k].body@))
}

/// The builder state an entry-in-progress and finished notes stand for.
spec fn loop_model(notes: Seq<VersionNote>, curr: Option<PartialEntry>) -> BuildState {
    BuildState {
        accum: notes_model(notes),
        curr: match curr {
            None => None,
            Some(c) => Some(
                PartialNote { version: c.version@, pounds: c.pounds as int, body: c.body@ },
            ),
        },
    }
}

/// Parse a changelog text into its version entries, in order.
pub fn parse_changelog(text: &str) -> (notes: Vec<VersionNote>)
    ensures
        notes_model(notes@) == spec_changelog(text@),
{
    let lines = preadlns(text);
    let ghost lv = lines.deep_view();
    let ghost target = spec_changelog(text@);

    let mut notes: Vec<VersionNote> = Vec::new();
    let mut curr: Option<PartialEntry> = None;

    let n = lines.len();
    let mut i: usize = 0;
    proof {
        assert(lv.skip(0) =~= lv);
        assert(notes_model(notes@) =~= Seq::<(Seq<char>, Seq<char>)>::empty());
        assert(loop_model(notes@, curr) == (BuildState {
            accum: Seq::<(Seq<char>, Seq<char>)>::empty(),
            curr: None::<PartialNote>,
        }));
    }
    while i < n
        invariant
            n == lv.len(),
            lv == lines.deep_view(),
            n == lines@.len(),
            target == spec_changelog(text@),
            i <= n,
            spec_finalize(spec_build_lines(loop_model(notes@, curr), lv.skip(i as int))).accum
                == target,
        decreases n - i,
    {
        proof {
            assert(lv.skip(i as int)[0] == lv[i as int]);
            assert(lv.skip(i as int).drop_first() =~= lv.skip(i + 1 as int));
        }
        let line: &String = &lines[i];
        proof {
            assert(line@ == lv[i as int]);
        }
        let mut parsed = parse_line(line.as_str());
        parsed.specialize_header();

        let ghost st0 = loop_model(notes@, curr);
        let ghost st1 = spec_build_step(st0, lv[i as int]);
        proof {
            assert(spec_build_lines(st0, lv.skip(i as int)) == spec_build_lines(
                st1,
                lv.skip(i + 1 as int),
            ));
        }

        let taken = curr;
        curr = None;
        match taken {
            Some(mut c) => {
                match parsed {
                    ParsedLine::Heading { pounds, body: _ } => {
                        if pounds >= c.pounds {
                            finalize_into(&mut notes, c);
                            curr = None;
                        } else {
                            push_entry_line(&mut c, line.as_str());
                            curr = Some(c);
                        }
                    },
                    ParsedLine::VersionHeading { pounds, version } => {
                        if pounds >= c.pounds {
                            finalize_into(&mut notes, c);
                            curr = Some(PartialEntry { version, pounds, body: String::new() });
                        } else {
                            push_entry_line(&mut c, line.as_str());
                            curr = Some(c);
                        }
                    },
                    ParsedLine::SectionBreak => {
                        finalize_into(&mut notes, c);
                        curr = None;
                    },
                    ParsedLine::Plain => {
                        push_entry_line(&mut c, line.as_str());
                        curr = Some(c);
                    },
                }
            },
            None => {
                match parsed {
                    ParsedLine::VersionHeading { pounds, version } => {
                        curr = Some(PartialEntry { version, pounds, body: String::new() });
                    },
                    _ => {
                        curr = None;
                    },
                }
            },
        }
        proof {
            assert(loop_model(notes@, curr).accum =~= st1.accum);
            assert(loop_model(notes@, curr).curr == st1.curr);
            assert(loop_model(notes@, curr) == st1);
        }
        i = i + 1;
    }
    proof {
        assert(lv.skip(n as int) =~= Seq::<Seq<char>>::empty());
    }
    let last = curr;
    match last {
        Some(c) => {
            finalize_into(&mut notes, c);
        },
        None => {},
    }
    proof {
        assert(notes_model(notes@) =~= target);
    }
    notes
}

/// Close an entry: trim its body, give it one trailing newline, and add
/// it to the finished notes.
fn finalize_into(notes: &mut Vec<VersionNote>, c: PartialEntry)
    ensures
        final(notes)@.len() == old(notes)@.len() + 1,
        forall|k: int| 0 <= k < old(notes)@.len() ==> final(notes)@[k] == old(notes)@[k],
        final(notes)@.last().version@ == c.version@,
        final(notes)@.last().body@ == spec_trim(c.body@).push('\n'),
{
    let mut body = trim_exec(c.body.as_str());
    push_char(&mut body, '\n');
    notes.push(VersionNote { version: c.version, body });
}

/// Add one line to an entry being collected.
fn push_entry_line(c: &mut PartialEntry, line: &str)
    ensures
        final(c).version == old(c).version,
        final(c).pounds == old(c).pounds,
        final(c).body@ == old(c).body@ + line@ + seq!['\n'],
{
    push_str(&mut c.body, line);
    push_char(&mut c.body, '\n');
}

} // verus!
