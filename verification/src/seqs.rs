//! Facts about sequences that the loops of this crate lean on.

use vstd::prelude::*;

verus! {

/// Filtering one element more: the next element joins the filtered prefix if
/// it passes.
pub proof fn lemma_filter_step<A>(s: Seq<A>, pred: spec_fn(A) -> bool, i: int)
    requires
        0 <= i < s.len(),
    ensures
        s.take(i + 1).filter(pred) == if pred(s[i]) {
            s.take(i).filter(pred).push(s[i])
        } else {
            s.take(i).filter(pred)
        },
{
    reveal(Seq::filter);
    assert(s.take(i + 1).drop_last() =~= s.take(i));
    assert(s.take(i + 1).last() == s[i]);
}

/// Filtering nothing leaves nothing.
pub proof fn lemma_filter_empty<A>(s: Seq<A>, pred: spec_fn(A) -> bool)
    requires
        s.len() == 0,
    ensures
        s.filter(pred) == s,
{
    reveal(Seq::filter);
}

} // verus!
