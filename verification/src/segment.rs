//! Grapheme segmentation, for text that is measured and truncated the
//! way a terminal user sees it rather than by chars.

use vstd::prelude::*;

verus! {

/// The extended grapheme clusters of a text, in order. The segmentation
/// is a function of the text alone.
pub uninterp spec fn graphemes_of(s: Seq<char>) -> Seq<Seq<char>>;

/// Relies on `unicode_segmentation::UnicodeSegmentation::graphemes` with
/// extended clusters: it partitions the text into its grapheme clusters,
/// and the result depends on the text alone.
#[verifier::external_body]
pub fn graphemes(s: &str) -> (r: Vec<String>)
    ensures
        r.deep_view() == graphemes_of(s@),
{
    unicode_segmentation::UnicodeSegmentation::graphemes(s, true).map(|g| g.to_string()).collect()
}

/// The segments run back together.
pub open spec fn concat_segs(ss: Seq<Seq<char>>) -> Seq<char>
    decreases ss.len(),
{
    if ss.len() == 0 {
        Seq::empty()
    } else {
        ss[0] + concat_segs(ss.drop_first())
    }
}

/// Concatenation over one more segment at the end.
pub proof fn lemma_concat_segs_snoc(ss: Seq<Seq<char>>, last: Seq<char>)
    ensures
        concat_segs(ss.push(last)) =~= concat_segs(ss) + last,
    decreases ss.len(),
{
    reveal_with_fuel(concat_segs, 2);
    if ss.len() == 0 {
        assert(ss.push(last)[0] == last);
        assert(ss.push(last).drop_first() =~= Seq::<Seq<char>>::empty());
    } else {
        assert(ss.push(last)[0] == ss[0]);
        assert(ss.push(last).drop_first() =~= ss.drop_first().push(last));
        lemma_concat_segs_snoc(ss.drop_first(), last);
    }
}

} // verus!
