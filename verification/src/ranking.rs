//! Ranked groupings: keyed averages sorted descending. The sort is a
//! stable insertion sort given as a spec-level function, so that the
//! ranked output is pinned exactly and ties keep their first-seen order
//! on every run.
use vstd::prelude::*;

use vstd::multiset::Multiset;

use crate::average::Average;
use crate::average::avg_le;
use crate::average::avg_le_exec;
use crate::average::lemma_avg_le_total;
use crate::average::lemma_avg_le_trans;

verus! {

/// Insert `x` behind every entry whose average is at least `x`'s; the
/// first strictly smaller entry (and everything after) moves back.
pub open spec fn insert_desc<K>(s: Seq<(K, Average)>, x: (K, Average)) -> Seq<(K, Average)>
    decreases s.len(),
{
    if s.len() == 0 {
        seq![x]
    } else if avg_le(x.1, s[0].1) {
        seq![s[0]] + insert_desc(s.drop_first(), x)
    } else {
        seq![x] + s
    }
}

/// Stable descending sort by average: every element is inserted, in
/// input order, behind the entries that rank at least as high.
pub open spec fn sort_desc<K>(s: Seq<(K, Average)>) -> Seq<(K, Average)>
    decreases s.len(),
{
    if s.len() == 0 {
        Seq::empty()
    } else {
        insert_desc(sort_desc(s.drop_last()), s.last())
    }
}

/// Descending order: no later entry ranks above an earlier one.
pub open spec fn sorted_desc<K>(s: Seq<(K, Average)>) -> bool {
    forall|i: int, j: int| 0 <= i < j < s.len() ==> avg_le((#[trigger] s[j]).1, (#[trigger] s[i]).1)
}

proof fn lemma_insert_desc_len<K>(s: Seq<(K, Average)>, x: (K, Average))
    ensures
        insert_desc(s, x).len() == s.len() + 1,
    decreases s.len(),
{
    if s.len() == 0 {
    } else if avg_le(x.1, s[0].1) {
        lemma_insert_desc_len(s.drop_first(), x);
    }
}

/// Inserting keeps a descending sequence descending.
proof fn lemma_insert_desc_sorted<K>(s: Seq<(K, Average)>, x: (K, Average))
    requires
        sorted_desc(s),
    ensures
        sorted_desc(insert_desc(s, x)),
        insert_desc(s, x).to_multiset() =~= s.to_multiset().insert(x),
    decreases s.len(),
{
    broadcast use vstd::seq_lib::group_to_multiset_ensures;

    let r = insert_desc(s, x);
    lemma_insert_desc_len(s, x);
    if s.len() == 0 {
        assert(r =~= Seq::empty().push(x));
        assert(Seq::<(K, Average)>::empty().to_multiset() =~= Multiset::empty());
    } else if avg_le(x.1, s[0].1) {
        let d = s.drop_first();
        assert(forall|i: int, j: int|
            0 <= i < j < d.len() ==> avg_le((#[trigger] d[j]).1, (#[trigger] d[i]).1));
        lemma_insert_desc_sorted(d, x);
        let rd = insert_desc(d, x);
        assert(r =~= seq![s[0]] + rd);
        // The head still dominates: everything in the tail is either an
        // old entry (below the head already) or `x` (below the head by
        // the branch condition).
        assert forall|j: int| 0 <= j < rd.len() implies avg_le(rd[j].1, s[0].1) by {
            assert(rd.contains(rd[j]));
            assert(rd.to_multiset().count(rd[j]) > 0);
            if rd[j] == x {
            } else {
                assert(d.to_multiset().count(rd[j]) > 0);
                assert(d.contains(rd[j]));
                let w = choose|w: int| 0 <= w < d.len() && d[w] == rd[j];
                assert(d[w] == s[w + 1]);
                assert(avg_le(s[w + 1].1, s[0].1));
            }
        }
        assert(sorted_desc(r));
        vstd::seq_lib::lemma_multiset_commutative(seq![s[0]], rd);
        vstd::seq_lib::lemma_multiset_commutative(seq![s[0]], d);
        assert(seq![s[0]] + rd =~= r);
        assert(seq![s[0]] + d =~= s);
        assert(r.to_multiset() =~= s.to_multiset().insert(x)) by {
            assert(r.to_multiset() == seq![s[0]].to_multiset().add(rd.to_multiset()));
            assert(s.to_multiset() == seq![s[0]].to_multiset().add(d.to_multiset()));
            assert(rd.to_multiset() == d.to_multiset().insert(x));
        }
    } else {
        lemma_avg_le_total(x.1, s[0].1);
        assert forall|j: int| 0 <= j < s.len() implies avg_le(s[j].1, x.1) by {
            if j > 0 {
                lemma_avg_le_trans(s[j].1, s[0].1, x.1);
            }
        }
        assert(r =~= seq![x] + s);
        vstd::seq_lib::lemma_multiset_commutative(seq![x], s);
        assert(seq![x].to_multiset() =~= Multiset::empty().insert(x)) by {
            assert(seq![x] =~= Seq::<(K, Average)>::empty().push(x));
        }
        assert(r.to_multiset() =~= s.to_multiset().insert(x));
    }
}

/// The sorted output is descending and a permutation of the input.
pub proof fn lemma_sort_desc_props<K>(s: Seq<(K, Average)>)
    ensures
        sort_desc(s).len() == s.len(),
        sorted_desc(sort_desc(s)),
        sort_desc(s).to_multiset() =~= s.to_multiset(),
    decreases s.len(),
{
    broadcast use vstd::seq_lib::group_to_multiset_ensures;

    if s.len() == 0 {
    } else {
        let d = s.drop_last();
        lemma_sort_desc_props(d);
        lemma_insert_desc_len(sort_desc(d), s.last());
        lemma_insert_desc_sorted(sort_desc(d), s.last());
        assert(d.push(s.last()) =~= s);
    }
}

/// Where the scan stops, the insertion happens.
proof fn lemma_insert_desc_at<K>(s: Seq<(K, Average)>, x: (K, Average), p: int)
    requires
        0 <= p <= s.len(),
        forall|j: int| 0 <= j < p ==> avg_le(x.1, (#[trigger] s[j]).1),
        p < s.len() ==> !avg_le(x.1, s[p].1),
    ensures
        insert_desc(s, x) == s.take(p) + seq![x] + s.skip(p),
    decreases s.len(),
{
    if s.len() == 0 {
        assert(insert_desc(s, x) =~= s.take(0) + seq![x] + s.skip(0));
    } else if p == 0 {
        assert(insert_desc(s, x) =~= s.take(0) + seq![x] + s.skip(0));
    } else {
        let d = s.drop_first();
        assert(forall|j: int| 0 <= j < p - 1 ==> avg_le(x.1, (#[trigger] d[j]).1));
        lemma_insert_desc_at(d, x, p - 1);
        assert(insert_desc(s, x) =~= s.take(p) + seq![x] + s.skip(p)) by {
            assert(insert_desc(s, x) == seq![s[0]] + (d.take(p - 1) + seq![x] + d.skip(p - 1)));
            assert(seq![s[0]] + (d.take(p - 1) + seq![x] + d.skip(p - 1)) =~= s.take(p) + seq![x]
                + s.skip(p));
        }
    }
}

/// Sorts keyed averages descending; see [`sort_desc`].
pub fn sort_pairs<K: Copy>(mut v: Vec<(K, Average)>) -> (r: Vec<(K, Average)>)
    ensures
        r@ == sort_desc(v@),
{
    let ghost orig = v@;
    let mut r: Vec<(K, Average)> = Vec::new();
    let mut k: usize = 0;
    proof {
        assert(orig.take(0) =~= Seq::empty());
    }
    while k < v.len()
        invariant
            k <= orig.len(),
            v@ == orig,
            r@ == sort_desc(orig.take(k as int)),
        decreases orig.len() - k,
    {
        let x = v[k];
        let mut p: usize = 0;
        while p < r.len() && avg_le_exec(&x.1, &r[p].1)
            invariant
                p <= r@.len(),
                forall|j: int| 0 <= j < p ==> avg_le(x.1, (#[trigger] r@[j]).1),
            decreases r@.len() - p,
        {
            p = p + 1;
        }
        proof {
            lemma_insert_desc_at(r@, x, p as int);
        }
        r.insert(p, x);
        proof {
            assert(orig.take(k + 1).drop_last() =~= orig.take(k as int));
            assert(orig.take(k + 1).last() == orig[k as int]);
            assert(r@ =~= sort_desc(orig.take(k + 1)));
            assert(r@ == sort_desc(orig.take(k + 1)));
        }
        k = k + 1;
    }
    proof {
        assert(orig.take(orig.len() as int) =~= orig);
    }
    r
}

} // verus!
