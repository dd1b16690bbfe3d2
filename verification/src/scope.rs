//! Scoped effects on the log stream: nested indentation, and catch
//! scopes that collect the problems logged while they are open.
//!
//! The host keeps one `LogScopes` value behind its lock and passes it to
//! these operations; each guard value must be ended explicitly through
//! the state it was opened on.

use vstd::prelude::*;

use crate::error::{Problem, ProblemLevel};

verus! {

/// The shared state the scoped guards act on: the current indentation
/// depth, and the stack of open catch scopes with the problems each has
/// collected so far.
pub struct LogScopes {
    pub indent: u32,
    pub catch: Vec<Vec<Problem>>,
}

/// The problems of a scope that are of error level, in order.
pub open spec fn spec_errors_of(s: Seq<Problem>) -> Seq<Problem> {
    s.filter(|p: Problem| p.level is Error)
}

impl LogScopes {
    /// The starting state: no indentation, no open scope.
    pub fn new() -> (s: LogScopes)
        ensures
            s.indent == 0,
            s.catch@.len() == 0,
    {
        LogScopes { indent: 0, catch: Vec::new() }
    }

    /// Capture a problem into the innermost open catch scope; with no
    /// scope open the problem is dropped.
    pub fn record_problem(&mut self, p: Problem)
        ensures
            final(self).indent == old(self).indent,
            old(self).catch@.len() == 0 ==> final(self).catch@ == old(self).catch@,
            old(self).catch@.len() > 0 ==> {
                &&& final(self).catch@.len() == old(self).catch@.len()
                &&& forall|k: int|
                    0 <= k < old(self).catch@.len() - 1 ==> final(self).catch@[k] == old(
                        self,
                    ).catch@[k]
                &&& final(self).catch@.last()@ == old(self).catch@.last()@.push(p)
            },
    {
        if self.catch.len() > 0 {
            let mut top = match self.catch.pop() {
                Some(v) => v,
                None => Vec::new(),
            };
            top.push(p);
            self.catch.push(top);
        }
    }
}

/// Indent logs one additional level as long as this guard is open. It
/// also counts the blank-line separators asked of it.
pub struct LogIndent {
    pub linebreaks: u32,
}

/// Open an indentation level.
pub fn log_indent(state: &mut LogScopes) -> (g: LogIndent)
    requires
        old(state).indent < u32::MAX,
    ensures
        final(state).indent == old(state).indent + 1,
        final(state).catch == old(state).catch,
        g.linebreaks == 0,
{
    state.indent = state.indent + 1;
    LogIndent { linebreaks: 0 }
}

impl LogIndent {
    /// End the indentation.
    pub fn end(self, state: &mut LogScopes)
        requires
            old(state).indent > 0,
        ensures
            final(state).indent == old(state).indent - 1,
            final(state).catch == old(state).catch,
    {
        state.indent = state.indent - 1;
    }

    /// Ask for a blank line between repetitions of a logged operation:
    /// one is due before every repetition but the first.
    pub fn linebreak(&mut self) -> (print: bool)
        requires
            old(self).linebreaks < u32::MAX,
        ensures
            final(self).linebreaks == old(self).linebreaks + 1,
            print == (old(self).linebreaks > 0),
    {
        let print = self.linebreaks > 0;
        self.linebreaks = self.linebreaks + 1;
        print
    }
}

/// Collect the problems logged while this guard is open.
pub struct CatchErrors {
    pub indent: Option<LogIndent>,
    pub handled: bool,
}

/// Open a catch scope, indenting the logs inside it if asked.
pub fn catch_errors(state: &mut LogScopes, indent_logs: bool) -> (g: CatchErrors)
    requires
        indent_logs ==> old(state).indent < u32::MAX,
    ensures
        indent_logs ==> final(state).indent == old(state).indent + 1,
        !indent_logs ==> final(state).indent == old(state).indent,
        final(state).catch@.len() == old(state).catch@.len() + 1,
        forall|k: int|
            0 <= k < old(state).catch@.len() ==> final(state).catch@[k] == old(state).catch@[k],
        final(state).catch@.last()@ == Seq::<Problem>::empty(),
        g.indent is Some <==> indent_logs,
        !g.handled,
{
    let indent = if indent_logs {
        Some(log_indent(state))
    } else {
        None
    };
    state.catch.push(Vec::new());
    CatchErrors { indent, handled: false }
}

impl CatchErrors {
    /// End the scope, retrieving every problem that occurred in it.
    pub fn get(self, state: &mut LogScopes) -> (problems: Vec<Problem>)
        requires
            old(state).catch@.len() > 0,
            self.indent is Some ==> old(state).indent > 0,
        ensures
            problems@ == old(state).catch@.last()@,
            final(state).catch@ == old(state).catch@.drop_last(),
            self.indent is Some ==> final(state).indent == old(state).indent - 1,
            self.indent is None ==> final(state).indent == old(state).indent,
    {
        let CatchErrors { indent, handled: _ } = self;
        match indent {
            Some(g) => g.end(state),
            None => {},
        }
        match state.catch.pop() {
            Some(v) => v,
            None => Vec::new(),
        }
    }

    /// End the scope, retrieving only the problems of error level, in
    /// order; warnings are pardoned.
    pub fn get_errors(self, state: &mut LogScopes) -> (errors: Vec<Problem>)
        requires
            old(state).catch@.len() > 0,
            self.indent is Some ==> old(state).indent > 0,
        ensures
            errors@ == spec_errors_of(old(state).catch@.last()@),
            final(state).catch@ == old(state).catch@.drop_last(),
            self.indent is Some ==> final(state).indent == old(state).indent - 1,
            self.indent is None ==> final(state).indent == old(state).indent,
    {
        let mut rest = self.get(state);
        let ghost sv = rest@;
        let mut errors: Vec<Problem> = Vec::new();
        let ghost mut i: int = 0;
        proof {
            assert(sv.take(0) =~= Seq::<Problem>::empty());
            assert(sv.skip(0) =~= sv);
            reveal(Seq::filter);
        }
        while rest.len() > 0
            invariant
                0 <= i <= sv.len(),
                rest@ == sv.skip(i),
                errors@ == spec_errors_of(sv.take(i)),
            decreases rest@.len(),
    {
            let p = rest.remove(0);
            proof {
                assert(p == sv[i]);
                assert(rest@ =~= sv.skip(i + 1));
                reveal(Seq::filter);
                assert(sv.take(i + 1).drop_last() =~= sv.take(i));
                assert(sv.take(i + 1).last() == sv[i]);
            }
            let keep = match p.level() {
                ProblemLevel::Error => true,
                ProblemLevel::Warn => false,
            };
            if keep {
                let ghost prev = errors@;
                errors.push(p);
                proof {
                    assert(errors@ =~= prev + seq![sv[i]]);
                    assert(spec_errors_of(sv.take(i + 1)) =~= spec_errors_of(sv.take(i)) + seq![
                        sv[i],
                    ]);
                }
            } else {
                proof {
                    assert(spec_errors_of(sv.take(i + 1)) =~= spec_errors_of(sv.take(i)));
                }
            }
            proof {
                i = i + 1;
            }
        }
        proof {
            assert(sv.take(i) =~= sv);
        }
        errors
    }

    /// Ask for a blank line between repetitions of a logged operation.
    /// Does nothing when the scope is not indenting.
    pub fn linebreak(&mut self) -> (print: bool)
        requires
            old(self).indent matches Some(g) ==> g.linebreaks < u32::MAX,
        ensures
            match old(self).indent {
                Some(g) => final(self).indent matches Some(g2) && g2.linebreaks == g.linebreaks
                    + 1 && print == (g.linebreaks > 0),
                None => *final(self) == *old(self) && !print,
            },
            final(self).handled == old(self).handled,
    {
        match &mut self.indent {
            Some(g) => g.linebreak(),
            None => false,
        }
    }
}

} // verus!
