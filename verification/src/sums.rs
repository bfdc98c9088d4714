//! Conditional sums over sequences: the mathematical form of every
//! accumulator the engine fills in one pass, with the lemmas the scan
//! loop and the aggregation laws need.
use vstd::prelude::*;

verus! {

/// Sum of `f` over the elements of `s`.
pub open spec fn sum_by<A>(s: Seq<A>, f: spec_fn(A) -> int) -> int
    decreases s.len(),
{
    if s.len() == 0 {
        0
    } else {
        sum_by(s.drop_last(), f) + f(s.last())
    }
}

/// Extending the summed prefix by one element adds that element's
/// contribution.
pub proof fn lemma_sum_by_take_succ<A>(s: Seq<A>, f: spec_fn(A) -> int, i: int)
    requires
        0 <= i < s.len(),
    ensures
        sum_by(s.take(i + 1), f) == sum_by(s.take(i), f) + f(s[i]),
{
    assert(s.take(i + 1).drop_last() =~= s.take(i));
    assert(s.take(i + 1).last() == s[i]);
}

/// Removing an element that contributes nothing leaves the sum unchanged.
pub proof fn lemma_sum_by_remove<A>(s: Seq<A>, f: spec_fn(A) -> int, i: int)
    requires
        0 <= i < s.len(),
        f(s[i]) == 0,
    ensures
        sum_by(s.remove(i), f) == sum_by(s, f),
    decreases s.len(),
{
    if i == s.len() - 1 {
        assert(s.remove(i) =~= s.drop_last());
    } else {
        let d = s.drop_last();
        assert(s.remove(i).drop_last() =~= d.remove(i));
        assert(s.remove(i).last() == s.last());
        lemma_sum_by_remove(d, f, i);
    }
}

/// Extending the folded prefix by one element applies one more step.
pub proof fn lemma_fold_left_take_succ<A, B>(s: Seq<A>, b: B, f: spec_fn(B, A) -> B, i: int)
    requires
        0 <= i < s.len(),
    ensures
        s.take(i + 1).fold_left(b, f) == f(s.take(i).fold_left(b, f), s[i]),
{
    assert(s.take(i + 1).drop_last() =~= s.take(i));
    assert(s.take(i + 1).last() == s[i]);
}

/// Removing an element on which the step acts as the identity leaves a
/// fold unchanged.
pub proof fn lemma_fold_left_remove_id<A, B>(s: Seq<A>, b: B, f: spec_fn(B, A) -> B, i: int)
    requires
        0 <= i < s.len(),
        forall|x: B| #[trigger] f(x, s[i]) == x,
    ensures
        s.remove(i).fold_left(b, f) == s.fold_left(b, f),
    decreases s.len(),
{
    if i == s.len() - 1 {
        assert(s.remove(i) =~= s.drop_last());
    } else {
        let d = s.drop_last();
        assert(s.remove(i).drop_last() =~= d.remove(i));
        assert(s.remove(i).last() == s.last());
        lemma_fold_left_remove_id(d, b, f, i);
    }
}

} // verus!
