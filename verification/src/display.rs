//! Multi-line display helpers: joining many items into one text, one
//! item per line.

use vstd::prelude::*;

use crate::strkit::{push_char, push_str};

verus! {

/// The items joined with single newlines between them: no trailing
/// newline, and the empty sequence renders empty.
pub open spec fn join_nl(items: Seq<Seq<char>>) -> Seq<char>
    decreases items.len(),
{
    if items.len() == 0 {
        Seq::empty()
    } else if items.len() == 1 {
        items[0]
    } else {
        items[0] + seq!['\n'] + join_nl(items.drop_first())
    }
}

proof fn lemma_join_nl_snoc(items: Seq<Seq<char>>, last: Seq<char>)
    ensures
        items.len() == 0 ==> join_nl(items.push(last)) == last,
        items.len() > 0 ==> join_nl(items.push(last)) =~= join_nl(items) + seq!['\n'] + last,
    decreases items.len(),
{
    reveal_with_fuel(join_nl, 2);
    if items.len() == 0 {
        assert(items.push(last)[0] == last);
    } else {
        assert(items.push(last)[0] == items[0]);
        assert(items.push(last).drop_first() =~= items.drop_first().push(last));
        lemma_join_nl_snoc(items.drop_first(), last);
    }
}

/// Join items with newlines, one per line, no trailing newline.
fn render_lines(items: &Vec<String>) -> (out: String)
    ensures
        out@ == join_nl(items.deep_view()),
{
    let ghost iv = items.deep_view();
    let mut out = String::new();
    let n = items.len();
    let mut i: usize = 0;
    proof {
        assert(iv.take(0) =~= Seq::<Seq<char>>::empty());
    }
    while i < n
        invariant
            n == iv.len(),
            iv == items.deep_view(),
            i <= n,
            out@ == join_nl(iv.take(i as int)),
        decreases n - i,
    {
        if i > 0 {
            push_char(&mut out, '\n');
        }
        push_str(&mut out, items[i].as_str());
        proof {
            assert(items[i as int]@ == iv[i as int]);
            assert(iv.take(i + 1 as int) =~= iv.take(i as int).push(iv[i as int]));
            lemma_join_nl_snoc(iv.take(i as int), iv[i as int]);
            if i > 0 {
                assert(out@ =~= join_nl(iv.take(i as int)) + seq!['\n'] + iv[i as int]);
            }
        }
        i = i + 1;
    }
    proof {
        assert(iv.take(n as int) =~= iv);
    }
    out
}

/// A sequence of items that renders each on its own line.
#[derive(Clone, Debug)]
pub struct Lines(pub Vec<String>);

impl Lines {
    /// The items, one per line, with no trailing newline.
    pub fn render(&self) -> (out: String)
        ensures
            out@ == join_nl(self.0.deep_view()),
    {
        render_lines(&self.0)
    }
}

/// A projected view of a sequence of items, already mapped to the text
/// each should show, that renders each on its own line.
#[derive(Clone, Debug)]
pub struct LinesView(pub Vec<String>);

impl LinesView {
    /// The projected items, one per line, with no trailing newline.
    pub fn render(&self) -> (out: String)
        ensures
            out@ == join_nl(self.0.deep_view()),
    {
        render_lines(&self.0)
    }
}

} // verus!
