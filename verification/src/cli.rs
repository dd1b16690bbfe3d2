//! Laying out a tagged block of text for the terminal: the first line
//! carries the tag, and every further line is padded by the tag's width
//! so the block stays aligned under it.

use vstd::prelude::*;

use crate::segment::{graphemes, graphemes_of};
use crate::sink::{preadlns, spec_lines};
use crate::strkit::{push_char, push_str};

verus! {

/// A run of spaces as wide as the tag, measured in grapheme clusters.
pub open spec fn spec_tag_padding(tag: Seq<char>) -> Seq<char> {
    Seq::new(graphemes_of(tag).len(), |j: int| ' ')
}

/// The lines a tagged block prints as: the tag before the first line,
/// and padding of the tag's width before every further line. An empty
/// block prints nothing.
pub fn printblock_lines(tag: &str, block: &str) -> (out: Vec<String>)
    ensures
        out.deep_view().len() == spec_lines(block@).len(),
        spec_lines(block@).len() > 0 ==> out.deep_view()[0] == tag@ + spec_lines(block@)[0],
        forall|k: int|
            1 <= k < spec_lines(block@).len() ==> out.deep_view()[k] == spec_tag_padding(tag@)
                + spec_lines(block@)[k],
{
    let lines = preadlns(block);
    let ghost lv = lines.deep_view();

    let width = graphemes(tag).len();
    let mut pad = String::new();
    let mut j: usize = 0;
    proof {
        assert(pad@ =~= Seq::new(0, |j: int| ' '));
    }
    while j < width
        invariant
            j <= width,
            width == graphemes_of(tag@).len(),
            pad@ =~= Seq::new(j as nat, |j: int| ' '),
        decreases width - j,
    {
        push_char(&mut pad, ' ');
        proof {
            assert(pad@ =~= Seq::new((j + 1) as nat, |j: int| ' '));
        }
        j = j + 1;
    }
    proof {
        assert(pad@ =~= spec_tag_padding(tag@));
    }

    let mut out: Vec<String> = Vec::new();
    let n = lines.len();
    let mut i: usize = 0;
    while i < n
        invariant
            n == lv.len(),
            lv == lines.deep_view(),
            pad@ == spec_tag_padding(tag@),
            i <= n,
            out.deep_view().len() == i,
            i > 0 ==> out.deep_view()[0] == tag@ + lv[0],
            forall|k: int| 1 <= k < i ==> out.deep_view()[k] == spec_tag_padding(tag@) + lv[k],
        decreases n - i,
    {
        let mut line = if i == 0 {
            tag.to_owned()
        } else {
            pad.clone()
        };
        push_str(&mut line, lines[i].as_str());
        proof {
            assert(lines[i as int]@ == lv[i as int]);
        }
        let ghost prev = out.deep_view();
        let ghost linev = line@;
        out.push(line);
        proof {
            assert(out.deep_view() =~= prev.push(linev));
        }
        i = i + 1;
    }
    out
}

} // verus!
