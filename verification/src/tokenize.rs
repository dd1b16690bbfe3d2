//! Splitting a command-line string into words.
//!
//! A single left-to-right scan over the characters keeps three pieces of
//! state: an escape-pending flag, an inside-quotes flag, and the buffer of
//! the word being built. A backslash escapes the next character (a trailing
//! lone backslash is dropped), a double quote toggles quote mode without
//! being emitted, and unquoted ASCII whitespace ends the current word.
//! An unterminated quote is not an error: quote mode simply stays on.

use vstd::prelude::*;

use crate::strkit::push_char;

verus! {

/// The characters the tokenizer treats as word separators: ASCII whitespace.
pub open spec fn is_ascii_space(c: char) -> bool {
    c == ' ' || c == '\t' || c == '\n' || c == '\x0C' || c == '\r'
}

/// Executable mirror of `is_ascii_space`.
pub fn ascii_space(c: char) -> (r: bool)
    ensures
        r == is_ascii_space(c),
{
    c == ' ' || c == '\t' || c == '\n' || c == '\x0C' || c == '\r'
}

/// The scanner's state between two characters: whether a backslash is
/// pending, whether the scan is inside double quotes, the word built so
/// far, and the words already emitted.
pub struct ScanState {
    pub esc: bool,
    pub quote: bool,
    pub buf: Seq<char>,
    pub parts: Seq<Seq<char>>,
}

/// The state the scan starts from: no pending escape, outside quotes,
/// empty buffer, no words emitted.
pub open spec fn scan_init() -> ScanState {
    ScanState { esc: false, quote: false, buf: Seq::empty(), parts: Seq::empty() }
}

/// How one character advances the scanner.
pub open spec fn scan_step(st: ScanState, c: char) -> ScanState {
    if c == '\\' && !st.esc {
        ScanState { esc: true, quote: st.quote, buf: st.buf, parts: st.parts }
    } else if st.esc {
        ScanState { esc: false, quote: st.quote, buf: st.buf.push(c), parts: st.parts }
    } else if c == '"' {
        ScanState { esc: false, quote: !st.quote, buf: st.buf, parts: st.parts }
    } else if is_ascii_space(c) && !st.quote {
        if st.buf.len() > 0 {
            ScanState { esc: false, quote: st.quote, buf: Seq::empty(), parts: st.parts.push(st.buf) }
        } else {
            st
        }
    } else {
        ScanState { esc: false, quote: st.quote, buf: st.buf.push(c), parts: st.parts }
    }
}

/// The scanner run over a whole character sequence.
pub open spec fn scan_chars(st: ScanState, s: Seq<char>) -> ScanState
    decreases s.len(),
{
    if s.len() == 0 {
        st
    } else {
        scan_chars(scan_step(st, s[0]), s.drop_first())
    }
}

/// End of input: a non-empty buffer is emitted as the final word.
pub open spec fn scan_finish(st: ScanState) -> Seq<Seq<char>> {
    if st.buf.len() > 0 {
        st.parts.push(st.buf)
    } else {
        st.parts
    }
}

/// The words of a command-line string.
pub open spec fn spec_tokens(s: Seq<char>) -> Seq<Seq<char>> {
    scan_finish(scan_chars(scan_init(), s))
}

/// Running the scanner over `s.push(c)` is one `scan_step` after running
/// it over `s`.
proof fn lemma_scan_snoc(st: ScanState, s: Seq<char>, c: char)
    ensures
        scan_chars(st, s.push(c)) == scan_step(scan_chars(st, s), c),
    decreases s.len(),
{
    reveal_with_fuel(scan_chars, 2);
    if s.len() == 0 {
        assert(s.push(c)[0] == c);
        assert(s.push(c).drop_first() =~= Seq::<char>::empty());
        assert(scan_chars(st, s.push(c)) == scan_chars(scan_step(st, c), Seq::<char>::empty()));
    } else {
        assert(s.push(c)[0] == s[0]);
        assert(s.push(c).drop_first() =~= s.drop_first().push(c));
        lemma_scan_snoc(scan_step(st, s[0]), s.drop_first(), c);
        assert(scan_chars(st, s.push(c)) == scan_chars(scan_step(st, s[0]), s.drop_first().push(c)));
        assert(scan_chars(st, s) == scan_chars(scan_step(st, s[0]), s.drop_first()));
    }
}

/// Split a string into words, honoring double-quote grouping and
/// backslash escaping.
pub fn smart_split(input: &str) -> (parts: Vec<String>)
    ensures
        parts.deep_view() == spec_tokens(input@),
{
    let mut parts: Vec<String> = Vec::new();

    let mut esc_mode = false;
    let mut quote_mode = false;
    let mut curr_buff = String::new();

    let n = input.unicode_len();
    let mut i: usize = 0;
    proof {
        assert(input@.take(0) =~= Seq::<char>::empty());
        assert(parts.deep_view() =~= Seq::<Seq<char>>::empty());
    }
    while i < n
        invariant
            n == input@.len(),
            i <= n,
            scan_chars(scan_init(), input@.take(i as int)) == (ScanState {
                esc: esc_mode,
                quote: quote_mode,
                buf: curr_buff@,
                parts: parts.deep_view(),
            }),
        decreases n - i,
    {
        let c = input.get_char(i);
        proof {
            lemma_scan_snoc_take(input@, i as int, c);
        }
        if c == '\\' && !esc_mode {
            esc_mode = true;
        } else if esc_mode {
            push_char(&mut curr_buff, c);
            esc_mode = false;
        } else if c == '"' {
            quote_mode = !quote_mode;
        } else if ascii_space(c) && !quote_mode {
            if !curr_buff.as_str().is_empty() {
                let ghost prev = parts.deep_view();
                let ghost tok = curr_buff@;
                parts.push(curr_buff);
                proof {
                    assert(parts.deep_view() =~= prev.push(tok));
                }
                curr_buff = String::new();
            }
        } else {
            push_char(&mut curr_buff, c);
        }
        i = i + 1;
    }
    proof {
        assert(input@.take(n as int) =~= input@);
    }
    if !curr_buff.as_str().is_empty() {
        let ghost prev = parts.deep_view();
        let ghost last = curr_buff@;
        parts.push(curr_buff);
        proof {
            assert(parts.deep_view() =~= prev.push(last));
        }
    }
    parts
}

/// The scanner never emits an empty word.
proof fn lemma_scan_tokens_nonempty(st: ScanState, s: Seq<char>)
    requires
        forall|i: int| 0 <= i < st.parts.len() ==> (#[trigger] st.parts[i]).len() > 0,
    ensures
        forall|i: int|
            0 <= i < scan_chars(st, s).parts.len() ==> (#[trigger] scan_chars(st, s).parts[i]).len()
                > 0,
    decreases s.len(),
{
    if s.len() > 0 {
        let st1 = scan_step(st, s[0]);
        assert(forall|i: int| 0 <= i < st1.parts.len() ==> (#[trigger] st1.parts[i]).len() > 0);
        lemma_scan_tokens_nonempty(st1, s.drop_first());
        assert(scan_chars(st, s) == scan_chars(st1, s.drop_first()));
    }
}

/// Every word the tokenizer emits has at least one character.
pub proof fn lemma_tokens_nonempty(s: Seq<char>)
    ensures
        forall|i: int|
            0 <= i < spec_tokens(s).len() ==> (#[trigger] spec_tokens(s)[i]).len() > 0,
{
    lemma_scan_tokens_nonempty(scan_init(), s);
}

/// A word with none of the tokenizer's special characters: no whitespace,
/// no double quote, no backslash, and at least one character.
pub open spec fn plain_token(t: Seq<char>) -> bool {
    &&& t.len() > 0
    &&& forall|i: int|
        0 <= i < t.len() ==> !is_ascii_space(#[trigger] t[i]) && t[i] != '"' && t[i] != '\\'
}

/// The words joined back into one line with single spaces between them.
pub open spec fn join_spaces(tokens: Seq<Seq<char>>) -> Seq<char>
    decreases tokens.len(),
{
    if tokens.len() == 0 {
        Seq::empty()
    } else if tokens.len() == 1 {
        tokens[0]
    } else {
        tokens[0] + seq![' '] + join_spaces(tokens.drop_first())
    }
}

/// The scanner over a concatenation runs over each part in turn.
proof fn lemma_scan_append(st: ScanState, s1: Seq<char>, s2: Seq<char>)
    ensures
        scan_chars(st, s1 + s2) == scan_chars(scan_chars(st, s1), s2),
    decreases s1.len(),
{
    reveal_with_fuel(scan_chars, 2);
    if s1.len() == 0 {
        assert(s1 + s2 =~= s2);
    } else {
        assert((s1 + s2)[0] == s1[0]);
        assert((s1 + s2).drop_first() =~= s1.drop_first() + s2);
        lemma_scan_append(scan_step(st, s1[0]), s1.drop_first(), s2);
    }
}

/// Scanning a plain word from a quiet state (no pending escape, outside
/// quotes) appends its characters to the buffer and emits nothing.
proof fn lemma_scan_plain(st: ScanState, t: Seq<char>)
    requires
        !st.esc,
        !st.quote,
        forall|i: int|
            0 <= i < t.len() ==> !is_ascii_space(#[trigger] t[i]) && t[i] != '"' && t[i] != '\\',
    ensures
        scan_chars(st, t) == (ScanState {
            esc: false,
            quote: false,
            buf: st.buf + t,
            parts: st.parts,
        }),
    decreases t.len(),
{
    reveal_with_fuel(scan_chars, 2);
    if t.len() == 0 {
        assert(st.buf + t =~= st.buf);
        assert(st == (ScanState { esc: false, quote: false, buf: st.buf, parts: st.parts }));
    } else {
        let st1 = scan_step(st, t[0]);
        assert(st1 == (ScanState {
            esc: false,
            quote: false,
            buf: st.buf.push(t[0]),
            parts: st.parts,
        }));
        lemma_scan_plain(st1, t.drop_first());
        assert(st.buf.push(t[0]) + t.drop_first() =~= st.buf + t);
    }
}

/// Scanning the space-joined words from a quiet state with an empty buffer
/// emits exactly those words, after whatever was already emitted.
proof fn lemma_scan_join(p: Seq<Seq<char>>, tokens: Seq<Seq<char>>)
    requires
        forall|i: int| 0 <= i < tokens.len() ==> plain_token(#[trigger] tokens[i]),
    ensures
        scan_finish(
            scan_chars(
                ScanState { esc: false, quote: false, buf: Seq::empty(), parts: p },
                join_spaces(tokens),
            ),
        ) =~= p + tokens,
    decreases tokens.len(),
{
    let st0 = ScanState { esc: false, quote: false, buf: Seq::empty(), parts: p };
    if tokens.len() == 0 {
        assert(scan_chars(st0, Seq::empty()) == st0);
        assert(p + tokens =~= p);
    } else if tokens.len() == 1 {
        lemma_scan_plain(st0, tokens[0]);
        assert(Seq::<char>::empty() + tokens[0] =~= tokens[0]);
        assert(p + tokens =~= p.push(tokens[0]));
    } else {
        lemma_scan_append(st0, tokens[0], seq![' '] + join_spaces(tokens.drop_first()));
        assert(tokens[0] + seq![' '] + join_spaces(tokens.drop_first()) =~= tokens[0] + (
        seq![' '] + join_spaces(tokens.drop_first())));
        lemma_scan_plain(st0, tokens[0]);
        assert(Seq::<char>::empty() + tokens[0] =~= tokens[0]);
        let st1 = ScanState { esc: false, quote: false, buf: tokens[0], parts: p };
        lemma_scan_append(st1, seq![' '], join_spaces(tokens.drop_first()));
        reveal_with_fuel(scan_chars, 2);
        assert(seq![' '][0] == ' ');
        assert(seq![' '].drop_first() =~= Seq::<char>::empty());
        let st2 = scan_step(st1, ' ');
        assert(scan_chars(st1, seq![' ']) == st2);
        assert(st2 == (ScanState {
            esc: false,
            quote: false,
            buf: Seq::<char>::empty(),
            parts: p.push(tokens[0]),
        }));
        lemma_scan_join(p.push(tokens[0]), tokens.drop_first());
        assert(p.push(tokens[0]) + tokens.drop_first() =~= p + tokens);
    }
}

/// Tokenizer round trip: a sequence of words free of whitespace, quote and
/// backslash characters, joined with single spaces, tokenizes back to
/// exactly that sequence.
pub proof fn lemma_tokenize_round_trip(tokens: Seq<Seq<char>>)
    requires
        forall|i: int| 0 <= i < tokens.len() ==> plain_token(#[trigger] tokens[i]),
    ensures
        spec_tokens(join_spaces(tokens)) == tokens,
{
    lemma_scan_join(Seq::empty(), tokens);
    assert(Seq::<Seq<char>>::empty() + tokens =~= tokens);
}

proof fn lemma_scan_snoc_take(s: Seq<char>, i: int, c: char)
    requires
        0 <= i < s.len(),
        c == s[i],
    ensures
        scan_chars(scan_init(), s.take(i + 1)) == scan_step(
            scan_chars(scan_init(), s.take(i)),
            c,
        ),
{
    assert(s.take(i + 1) =~= s.take(i).push(c));
    lemma_scan_snoc(scan_init(), s.take(i), c);
}

} // verus!
