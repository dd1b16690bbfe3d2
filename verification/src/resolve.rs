//! Classifying the words of a command line into environment assignments,
//! the program name, and arguments.
//!
//! While no program has been chosen, every word of the form `KEY=VALUE`
//! (one `=`, with non-empty halves free of `=`) is an environment
//! assignment. The first word not of that form is the program, and every
//! word after it is an argument verbatim, whether or not it matches the
//! pattern. A line whose words are all assignments has no program and is
//! rejected.

use vstd::prelude::*;

use crate::tokenize::{smart_split, spec_tokens};

verus! {

/// No `=` anywhere in the sequence.
pub open spec fn eq_free(s: Seq<char>) -> bool {
    forall|j: int| 0 <= j < s.len() ==> #[trigger] s[j] != '='
}

/// The word matches the assignment pattern: a non-empty key without `=`,
/// one `=`, a non-empty value without `=`.
pub open spec fn is_assignment(t: Seq<char>) -> bool {
    exists|i: int|
        1 <= i <= t.len() - 2 && #[trigger] t[i] == '=' && eq_free(t.take(i)) && eq_free(
            t.skip(i + 1),
        )
}

/// The position of the `=` of an assignment word.
pub open spec fn eq_pos(t: Seq<char>) -> int {
    choose|i: int|
        1 <= i <= t.len() - 2 && #[trigger] t[i] == '=' && eq_free(t.take(i)) && eq_free(
            t.skip(i + 1),
        )
}

/// The key half of an assignment word.
pub open spec fn assignment_key(t: Seq<char>) -> Seq<char> {
    t.take(eq_pos(t))
}

/// The value half of an assignment word.
pub open spec fn assignment_value(t: Seq<char>) -> Seq<char> {
    t.skip(eq_pos(t) + 1)
}

/// An assignment word has exactly one admissible split, so `eq_pos` is
/// determined: it is the position of the word's only `=`.
proof fn lemma_assignment_split(t: Seq<char>, i: int)
    requires
        1 <= i <= t.len() - 2,
        t[i] == '=',
        eq_free(t.take(i)),
        eq_free(t.skip(i + 1)),
    ensures
        is_assignment(t),
        eq_pos(t) == i,
{
    assert(is_assignment(t));
    let i2 = eq_pos(t);
    assert(1 <= i2 <= t.len() - 2 && t[i2] == '=' && eq_free(t.take(i2)) && eq_free(
        t.skip(i2 + 1),
    ));
    if i2 < i {
        assert(t.take(i)[i2] == '=');
    } else if i2 > i {
        assert(t.take(i2)[i] == '=');
    }
}

/// Test a word against the assignment pattern, returning the key and
/// value on a match.
pub fn parse_assignment(t: &str) -> (r: Option<(String, String)>)
    ensures
        match r {
            Some(kv) => {
                &&& is_assignment(t@)
                &&& kv.0@ == assignment_key(t@)
                &&& kv.1@ == assignment_value(t@)
            },
            None => !is_assignment(t@),
        },
{
    let n = t.unicode_len();
    let mut first: Option<usize> = None;
    let mut second: Option<usize> = None;
    let mut j: usize = 0;
    while j < n
        invariant
            n == t@.len(),
            j <= n,
            match first {
                None => eq_free(t@.take(j as int)) && second is None,
                Some(i) => {
                    &&& i < j
                    &&& t@[i as int] == '='
                    &&& eq_free(t@.take(i as int))
                    &&& match second {
                        None => eq_free(t@.subrange(i + 1, j as int)),
                        Some(i2) => i < i2 < j && t@[i2 as int] == '=',
                    }
                },
            },
        decreases n - j,
    {
        let c = t.get_char(j);
        if c == '=' {
            match first {
                None => {
                    first = Some(j);
                    proof {
                        assert(t@.subrange(j + 1 as int, j + 1 as int) =~= Seq::<char>::empty());
                    }
                },
                Some(i) => {
                    if second.is_none() {
                        second = Some(j);
                    }
                },
            }
        } else {
            proof {
                match first {
                    None => {
                        assert(t@.take(j + 1 as int) =~= t@.take(j as int).push(t@[j as int]));
                    },
                    Some(i) => {
                        if second is None {
                            assert(t@.subrange(i + 1, j + 1 as int) =~= t@.subrange(
                                i + 1,
                                j as int,
                            ).push(t@[j as int]));
                        }
                    },
                }
            }
        }
        j = j + 1;
    }
    proof {
        assert(t@.take(n as int) =~= t@);
    }
    match (first, second) {
        (Some(i), None) => {
            if i >= 1 && i + 1 < n {
                proof {
                    assert(t@.skip(i + 1) =~= t@.subrange(i + 1, n as int));
                    lemma_assignment_split(t@, i as int);
                }
                let key = t.substring_char(0, i).to_owned();
                let value = t.substring_char(i + 1, n).to_owned();
                proof {
                    assert(t@.subrange(0, i as int) =~= t@.take(i as int));
                }
                Some((key, value))
            } else {
                proof {
                    if is_assignment(t@) {
                        let i2 = eq_pos(t@);
                        lemma_assignment_split(t@, i2);
                        if i2 < i as int {
                            assert(t@.take(i as int)[i2] == '=');
                        } else if i2 > i as int {
                            assert(t@.subrange(i + 1, n as int)[i2 - i - 1] == '=');
                        }
                    }
                }
                None
            }
        },
        (Some(i), Some(i2)) => {
            proof {
                if is_assignment(t@) {
                    let w = eq_pos(t@);
                    lemma_assignment_split(t@, w);
                    if w < i as int {
                        assert(t@.take(i as int)[w] == '=');
                    } else if w == i as int {
                        assert(t@.skip(w + 1)[i2 - i - 1] == '=');
                    } else {
                        assert(t@.take(w)[i as int] == '=');
                    }
                }
            }
            None
        },
        (None, _) => {
            proof {
                if is_assignment(t@) {
                    let w = eq_pos(t@);
                    lemma_assignment_split(t@, w);
                }
            }
            None
        },
    }
}

/// A resolved command line: the leading environment assignments, the
/// program, and the remaining words as arguments.
#[derive(Clone, PartialEq, Debug)]
pub struct CommandSpec {
    pub env: Vec<(String, String)>,
    pub program: String,
    pub args: Vec<String>,
}

/// Why a command line failed to resolve.
#[derive(Clone, Copy, PartialEq, Eq, Debug)]
pub enum ResolveError {
    /// Every word matched the assignment pattern, so no word was left to
    /// be the program.
    NoProgram,
}

impl ResolveError {
    /// The one-line abort message for this error.
    pub fn message(&self) -> (m: String)
        ensures
            m@ == "cannot find program part of command"@,
    {
        "cannot find program part of command".to_owned()
    }
}

/// The index of the first word that does not match the assignment
/// pattern; the sequence's length if every word matches.
pub open spec fn program_index(tokens: Seq<Seq<char>>) -> int
    decreases tokens.len(),
{
    if tokens.len() == 0 {
        0
    } else if !is_assignment(tokens[0]) {
        0
    } else {
        1 + program_index(tokens.drop_first())
    }
}

/// `program_index` is exactly the first non-assignment position.
proof fn lemma_program_index(tokens: Seq<Seq<char>>, j: int)
    requires
        0 <= j <= tokens.len(),
        forall|k: int| 0 <= k < j ==> is_assignment(#[trigger] tokens[k]),
        j < tokens.len() ==> !is_assignment(tokens[j]),
    ensures
        program_index(tokens) == j,
    decreases j,
{
    if tokens.len() == 0 {
    } else if j == 0 {
    } else {
        assert(is_assignment(tokens[0]));
        lemma_program_index(tokens.drop_first(), j - 1);
    }
}

/// Everything `resolve_tokens` promises about a successful resolution,
/// stated over the views of the words.
pub open spec fn resolved_ok(tokens: Seq<Seq<char>>, r: CommandSpec) -> bool {
    let pi = program_index(tokens);
    &&& pi < tokens.len()
    &&& forall|k: int| 0 <= k < pi ==> is_assignment(#[trigger] tokens[k])
    &&& !is_assignment(tokens[pi])
    &&& r.program@ == tokens[pi]
    &&& r.args.deep_view() == tokens.skip(pi + 1)
    &&& r.env.deep_view().len() == pi
    &&& forall|k: int|
        0 <= k < pi ==> #[trigger] r.env.deep_view()[k] == (
        assignment_key(tokens[k]),
        assignment_value(tokens[k]),
        )
}

/// Resolve a word sequence into an environment overlay, a program, and
/// arguments. Fails if and only if every word (or none at all) matches
/// the assignment pattern.
pub fn resolve_tokens(tokens: &Vec<String>) -> (r: Result<CommandSpec, ResolveError>)
    ensures
        match r {
            Ok(spec) => resolved_ok(tokens.deep_view(), spec),
            Err(e) => {
                &&& program_index(tokens.deep_view()) == tokens.deep_view().len()
                &&& forall|k: int|
                    0 <= k < tokens.deep_view().len() ==> is_assignment(
                        #[trigger] tokens.deep_view()[k],
                    )
                &&& e == ResolveError::NoProgram
            },
        },
{
    let ghost tv = tokens.deep_view();
    let mut env: Vec<(String, String)> = Vec::new();
    let mut program: Option<String> = None;
    let mut args: Vec<String> = Vec::new();
    let ghost mut pi: int = 0;

    let n = tokens.len();
    let mut j: usize = 0;
    while j < n
        invariant
            n == tv.len(),
            tv == tokens.deep_view(),
            j <= n,
            match program {
                None => {
                    &&& pi == j
                    &&& forall|k: int| 0 <= k < j ==> is_assignment(#[trigger] tv[k])
                    &&& env.deep_view().len() == j
                    &&& forall|k: int|
                        0 <= k < j ==> #[trigger] env.deep_view()[k] == (
                        assignment_key(tv[k]),
                        assignment_value(tv[k]),
                        )
                    &&& args.deep_view().len() == 0
                },
                Some(p) => {
                    &&& 0 <= pi < j <= n
                    &&& forall|k: int| 0 <= k < pi ==> is_assignment(#[trigger] tv[k])
                    &&& !is_assignment(tv[pi])
                    &&& p@ == tv[pi]
                    &&& env.deep_view().len() == pi
                    &&& forall|k: int|
                        0 <= k < pi ==> #[trigger] env.deep_view()[k] == (
                        assignment_key(tv[k]),
                        assignment_value(tv[k]),
                        )
                    &&& args.deep_view() == tv.subrange(pi + 1, j as int)
                },
            },
        decreases n - j,
    {
        let part: &String = &tokens[j];
        proof {
            assert(part@ == tv[j as int]);
        }
        if program.is_none() {
            match parse_assignment(part.as_str()) {
                Some(kv) => {
                    let ghost prev = env.deep_view();
                    env.push(kv);
                    proof {
                        pi = j + 1;
                        assert(env.deep_view() =~= prev.push(
                            (assignment_key(tv[j as int]), assignment_value(tv[j as int])),
                        ));
                    }
                },
                None => {
                    program = Some(part.clone());
                    proof {
                        pi = j as int;
                        assert(args.deep_view() =~= tv.subrange(pi + 1, j + 1 as int));
                    }
                },
            }
        } else {
            let ghost prev = args.deep_view();
            args.push(part.clone());
            proof {
                assert(env.deep_view() == env.deep_view());
                assert(args.deep_view() =~= prev.push(tv[j as int]));
                assert(args.deep_view() =~= tv.subrange(pi + 1, j + 1 as int));
            }
        }
        j = j + 1;
    }

    match program {
        Some(p) => {
            proof {
                lemma_program_index(tv, pi);
                assert(args.deep_view() =~= tv.skip(pi + 1));
            }
            Ok(CommandSpec { env, program: p, args })
        },
        None => {
            proof {
                lemma_program_index(tv, n as int);
            }
            Err(ResolveError::NoProgram)
        },
    }
}

/// Split a command-line string into words and resolve them.
pub fn resolve_command_line(line: &str) -> (r: Result<CommandSpec, ResolveError>)
    ensures
        match r {
            Ok(spec) => resolved_ok(spec_tokens(line@), spec),
            Err(e) => {
                &&& program_index(spec_tokens(line@)) == spec_tokens(line@).len()
                &&& forall|k: int|
                    0 <= k < spec_tokens(line@).len() ==> is_assignment(
                        #[trigger] spec_tokens(line@)[k],
                    )
                &&& e == ResolveError::NoProgram
            },
        },
{
    let tokens = smart_split(line);
    resolve_tokens(&tokens)
}

} // verus!
