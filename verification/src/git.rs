//! The engine-side half of listing version-control history: the commit
//! record, and the truncation that makes a one-line summary of a commit
//! message.
//!
//! Running the version-control commands and collecting their output is
//! the host's business; it fills these records from the lines the
//! commands print.

use vstd::prelude::*;

use crate::segment::{concat_segs, graphemes, graphemes_of, lemma_concat_segs_snoc};
use crate::strkit::{push_char, push_str};

verus! {

/// One commit: its hash, a truncated one-line summary, and the pretty
/// form used in detailed listings.
#[derive(Clone, PartialEq, Debug)]
pub struct Commit {
    pub hash: String,
    pub concise: String,
    pub pretty: String,
}

/// The widest a truncated commit summary gets, in grapheme clusters,
/// counting the ellipsis that marks a cut.
pub const SUMMARY_WIDTH: usize = 30;

/// The truncated form of a commit message: its first twenty-nine
/// grapheme clusters, with an ellipsis appended exactly where the
/// message had at least that many.
pub open spec fn spec_truncated(msg: Seq<char>) -> Seq<char> {
    let gs = graphemes_of(msg);
    let keep = if gs.len() < (SUMMARY_WIDTH - 1) as int {
        gs.len() as int
    } else {
        (SUMMARY_WIDTH - 1) as int
    };
    concat_segs(gs.take(keep)) + if gs.len() >= (SUMMARY_WIDTH - 1) as int {
        seq!['\u{2026}']
    } else {
        Seq::<char>::empty()
    }
}

/// Truncate a commit message to a one-line summary.
pub fn truncate_msg(msg: &str) -> (out: String)
    ensures
        out@ == spec_truncated(msg@),
{
    let gs = graphemes(msg);
    let ghost gv = gs.deep_view();
    let limit = if gs.len() < SUMMARY_WIDTH - 1 {
        gs.len()
    } else {
        SUMMARY_WIDTH - 1
    };
    let mut out = String::new();
    let mut i: usize = 0;
    proof {
        assert(gv.take(0) =~= Seq::<Seq<char>>::empty());
        reveal_with_fuel(concat_segs, 1);
    }
    while i < limit
        invariant
            limit <= gv.len(),
            gv == gs.deep_view(),
            limit == gs@.len() || limit == SUMMARY_WIDTH - 1,
            limit <= gs@.len(),
            i <= limit,
            out@ == concat_segs(gv.take(i as int)),
        decreases limit - i,
    {
        push_str(&mut out, gs[i].as_str());
        proof {
            assert(gs[i as int]@ == gv[i as int]);
            assert(gv.take(i + 1 as int) =~= gv.take(i as int).push(gv[i as int]));
            lemma_concat_segs_snoc(gv.take(i as int), gv[i as int]);
        }
        i = i + 1;
    }
    if limit == SUMMARY_WIDTH - 1 {
        push_char(&mut out, '\u{2026}');
    }
    proof {
        assert(out@ =~= spec_truncated(msg@));
    }
    out
}

} // verus!
