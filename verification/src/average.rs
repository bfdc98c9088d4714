//! Exact averages. Every accumulator of the engine is a `(total, count)`
//! pair of integers; the average it stands for is the rational
//! `total / count`. Keeping the pair instead of dividing makes every
//! comparison exact and every run bit-identical.
//!
//! A bucket that no record touched has `count == 0` and its average is
//! undefined. The comparison below is a total order all the same: an
//! undefined average ranks above every defined one and all undefined
//! averages rank equal, the same place the not-a-number sentinel takes in
//! the floating-point total order. This is the documented policy for
//! extremal marking of series with empty buckets.
use vstd::prelude::*;

verus! {

/// A finalized average: the exact rational `total / count`.
/// `count == 0` means "undefined" (no contributions).
#[derive(Clone, Copy, Debug, PartialEq, Eq, Structural)]
pub struct Average {
    pub total: i64,
    pub count: u64,
}

/// Total order on averages: `a <= b` as rationals, with undefined
/// averages greatest and mutually equal.
pub open spec fn avg_le(a: Average, b: Average) -> bool {
    if b.count == 0 {
        true
    } else if a.count == 0 {
        false
    } else {
        (a.total as int) * (b.count as int) <= (b.total as int) * (a.count as int)
    }
}

/// Equality under the total order: equal as rationals, or both undefined.
pub open spec fn avg_eq(a: Average, b: Average) -> bool {
    avg_le(a, b) && avg_le(b, a)
}

pub proof fn lemma_avg_le_total(a: Average, b: Average)
    ensures
        avg_le(a, b) || avg_le(b, a),
{
}

pub proof fn lemma_avg_le_refl(a: Average)
    ensures
        avg_le(a, a),
{
}

pub proof fn lemma_avg_le_trans(a: Average, b: Average, c: Average)
    requires
        avg_le(a, b),
        avg_le(b, c),
    ensures
        avg_le(a, c),
{
    if c.count != 0 && b.count != 0 && a.count != 0 {
        let at = a.total as int;
        let bt = b.total as int;
        let ct = c.total as int;
        let ac = a.count as int;
        let bc = b.count as int;
        let cc = c.count as int;
        assert(at * cc <= ct * ac) by (nonlinear_arith)
            requires
                at * bc <= bt * ac,
                bt * cc <= ct * bc,
                ac > 0,
                bc > 0,
                cc > 0,
        ;
    }
}

/// Executable form of [`avg_le`]. The cross products fit in `i128`:
/// their magnitude is below `2^63 * 2^64`.
pub fn avg_le_exec(a: &Average, b: &Average) -> (r: bool)
    ensures
        r == avg_le(*a, *b),
{
    if b.count == 0 {
        true
    } else if a.count == 0 {
        false
    } else {
        proof {
            let at = a.total as int;
            let bt = b.total as int;
            let ac = a.count as int;
            let bc = b.count as int;
            assert(-(0x8000_0000_0000_0000int) * 0xffff_ffff_ffff_ffff <= at * bc <= 0x8000_0000_0000_0000int * 0xffff_ffff_ffff_ffff) by (nonlinear_arith)
                requires
                    -0x8000_0000_0000_0000 <= at <= 0x7fff_ffff_ffff_ffff,
                    0 <= bc <= 0xffff_ffff_ffff_ffff,
            ;
            assert(-(0x8000_0000_0000_0000int) * 0xffff_ffff_ffff_ffff <= bt * ac <= 0x8000_0000_0000_0000int * 0xffff_ffff_ffff_ffff) by (nonlinear_arith)
                requires
                    -0x8000_0000_0000_0000 <= bt <= 0x7fff_ffff_ffff_ffff,
                    0 <= ac <= 0xffff_ffff_ffff_ffff,
            ;
        }
        (a.total as i128) * (b.count as i128) <= (b.total as i128) * (a.count as i128)
    }
}

/// Executable form of [`avg_eq`].
pub fn avg_eq_exec(a: &Average, b: &Average) -> (r: bool)
    ensures
        r == avg_eq(*a, *b),
{
    avg_le_exec(a, b) && avg_le_exec(b, a)
}

/// The +/- annotation a series entry carries after extremal marking.
#[derive(Clone, Copy, Debug, PartialEq, Eq, Structural)]
pub enum Mark {
    /// Ties for the maximum of its series.
    Plus,
    /// Ties for the minimum (and not for the maximum).
    Minus,
    /// Neither extreme.
    Plain,
}

/// Whether entry `i` ties for the maximum of the series.
pub open spec fn is_series_max(s: Seq<Average>, i: int) -> bool {
    forall|j: int| 0 <= j < s.len() ==> avg_le(s[j], s[i])
}

/// Whether entry `i` ties for the minimum of the series.
pub open spec fn is_series_min(s: Seq<Average>, i: int) -> bool {
    forall|j: int| 0 <= j < s.len() ==> avg_le(s[i], s[j])
}

/// The mark entry `i` of the series receives: `+` on every entry tying
/// for the maximum, `-` on every entry tying for the minimum that does
/// not also tie for the maximum.
pub open spec fn mark_for(s: Seq<Average>, i: int) -> Mark {
    if is_series_max(s, i) {
        Mark::Plus
    } else if is_series_min(s, i) {
        Mark::Minus
    } else {
        Mark::Plain
    }
}

/// Annotates every entry of a series with its extremal mark.
pub fn mark_extremes(v: &Vec<Average>) -> (r: Vec<(Average, Mark)>)
    ensures
        r@.len() == v@.len(),
        forall|i: int| 0 <= i < v@.len() ==> r@[i].0 == v@[i] && r@[i].1 == mark_for(v@, i),
{
    let mut r: Vec<(Average, Mark)> = Vec::new();
    if v.len() == 0 {
        return r;
    }
    // One pass for each extreme, then one pass to mark; the extremes are
    // witnesses so that equality with them decides each tie.
    let mut max_at: usize = 0;
    let mut min_at: usize = 0;
    let mut i: usize = 1;
    while i < v.len()
        invariant
            1 <= i <= v@.len(),
            max_at < i,
            min_at < i,
            forall|j: int| 0 <= j < i ==> avg_le(v@[j], v@[max_at as int]),
            forall|j: int| 0 <= j < i ==> avg_le(v@[min_at as int], v@[j]),
        decreases v@.len() - i,
    {
        if avg_le_exec(&v[max_at], &v[i]) {
            proof {
                assert forall|j: int| 0 <= j < i + 1 implies avg_le(v@[j], v@[i as int]) by {
                    if j < i {
                        lemma_avg_le_trans(v@[j], v@[max_at as int], v@[i as int]);
                    } else {
                        lemma_avg_le_refl(v@[i as int]);
                    }
                }
            }
            max_at = i;
        }
        if avg_le_exec(&v[i], &v[min_at]) {
            proof {
                assert forall|j: int| 0 <= j < i + 1 implies avg_le(v@[i as int], v@[j]) by {
                    if j < i {
                        lemma_avg_le_trans(v@[i as int], v@[min_at as int], v@[j]);
                    } else {
                        lemma_avg_le_refl(v@[i as int]);
                    }
                }
            }
            min_at = i;
        }
        i = i + 1;
    }
    let mut k: usize = 0;
    while k < v.len()
        invariant
            k <= v@.len(),
            max_at < v@.len(),
            min_at < v@.len(),
            forall|j: int| 0 <= j < v@.len() ==> avg_le(v@[j], v@[max_at as int]),
            forall|j: int| 0 <= j < v@.len() ==> avg_le(v@[min_at as int], v@[j]),
            r@.len() == k,
            forall|j: int| 0 <= j < k ==> r@[j].0 == v@[j] && r@[j].1 == mark_for(v@, j),
        decreases v@.len() - k,
    {
        let m: Mark = if avg_eq_exec(&v[k], &v[max_at]) {
            proof {
                assert forall|j: int| 0 <= j < v@.len() implies avg_le(v@[j], v@[k as int]) by {
                    lemma_avg_le_trans(v@[j], v@[max_at as int], v@[k as int]);
                }
            }
            Mark::Plus
        } else if avg_eq_exec(&v[k], &v[min_at]) {
            proof {
                assert(!is_series_max(v@, k as int));
                assert forall|j: int| 0 <= j < v@.len() implies avg_le(v@[k as int], v@[j]) by {
                    lemma_avg_le_trans(v@[k as int], v@[min_at as int], v@[j]);
                }
            }
            Mark::Minus
        } else {
            proof {
                assert(!is_series_max(v@, k as int));
                if is_series_min(v@, k as int) {
                    assert(avg_le(v@[k as int], v@[min_at as int]));
                    assert(avg_le(v@[min_at as int], v@[k as int]));
                }
            }
            Mark::Plain
        };
        r.push((v[k], m));
        k = k + 1;
    }
    r
}

} // verus!
