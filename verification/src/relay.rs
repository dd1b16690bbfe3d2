//! The pure halves of the two I/O relays that accompany every spawned
//! child: the stderr relay's line prefixing, and the stdin feeder's
//! step-by-step protocol.
//!
//! The relays themselves run on background workers and never propagate
//! failure into the pipeline; what they write and when they stop is
//! decided here.

use vstd::prelude::*;

use crate::sink::{preadlns, spec_lines};
use crate::strkit::push_str;

verus! {

/// The fixed marker put before every relayed stderr line, so interleaved
/// children stay visually attributable.
pub open spec fn stderr_marker() -> Seq<char> {
    "| "@
}

/// The lines the stderr relay writes to the terminal for a child's
/// captured stderr text: each of its lines behind the fixed marker, in
/// the order the child wrote them.
pub fn relay_stderr_lines(text: &str) -> (out: Vec<String>)
    ensures
        out.deep_view() == spec_lines(text@).map_values(|l: Seq<char>| stderr_marker() + l),
{
    let ghost target = spec_lines(text@).map_values(|l: Seq<char>| stderr_marker() + l);
    let lines = preadlns(text);
    let mut out: Vec<String> = Vec::new();
    let n = lines.len();
    let mut i: usize = 0;
    proof {
        assert(out.deep_view() =~= target.take(0));
    }
    while i < n
        invariant
            n == lines@.len(),
            lines.deep_view() == spec_lines(text@),
            target == spec_lines(text@).map_values(|l: Seq<char>| stderr_marker() + l),
            i <= n,
            out.deep_view() =~= target.take(i as int),
        decreases n - i,
    {
        let mut line = "| ".to_owned();
        push_str(&mut line, lines[i].as_str());
        proof {
            assert(lines[i as int]@ == lines.deep_view()[i as int]);
            assert(line@ == target[i as int]);
        }
        let ghost prev = out.deep_view();
        out.push(line);
        proof {
            assert(out.deep_view() =~= prev.push(target[i as int]));
            assert(out.deep_view() =~= target.take(i + 1 as int));
        }
        i = i + 1;
    }
    proof {
        assert(target.take(n as int) =~= target);
    }
    out
}

/// What the stdin feeder does after one fill of its buffer.
#[derive(Clone, Copy, PartialEq, Eq, Debug)]
pub enum FeederStep {
    /// The source is exhausted: close the child's stdin, signalling EOF.
    CloseStdin,
    /// The write into the child failed (the child closed its stdin
    /// early): report a diagnostic and stop quietly; the child runs on
    /// and is judged by its exit status alone.
    Diagnostic,
    /// The write succeeded: consume this much of the source and go on.
    Consume { amount: usize },
}

/// Decide the feeder's next step from the length of the chunk read and
/// the outcome of the attempted write (`None`: the write failed).
pub fn feeder_step(chunk_len: usize, write_result: &Option<usize>) -> (r: FeederStep)
    ensures
        chunk_len == 0 ==> r == FeederStep::CloseStdin,
        chunk_len > 0 && write_result is None ==> r == FeederStep::Diagnostic,
        chunk_len > 0 && write_result is Some ==> r == (FeederStep::Consume {
            amount: write_result->0,
        }),
{
    if chunk_len == 0 {
        FeederStep::CloseStdin
    } else {
        match write_result {
            None => FeederStep::Diagnostic,
            Some(amount) => FeederStep::Consume { amount: *amount },
        }
    }
}

} // verus!
