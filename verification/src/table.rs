//! The Running-Average Table: a per-grade-bucket accumulator of
//! `(total, count)` pairs keyed by a discrete category ordinal, kept as an
//! association list so that the order in which keys first contribute is
//! part of the result and every run is bit-identical.
use vstd::prelude::*;

use crate::average::Average;

verus! {

/// One bucket: `(key, total, count)` per key, in first-contribution order.
pub struct AvgValue {
    pub entries: Vec<(usize, i64, u64)>,
}

/// The mathematical shape of a bucket.
pub type BucketView = Seq<(int, int, int)>;

/// The mathematical shape of a table: one bucket per grade.
pub type TableView = Seq<BucketView>;

impl View for AvgValue {
    type V = BucketView;

    open spec fn view(&self) -> BucketView {
        self.entries@.map_values(|e: (usize, i64, u64)| (e.0 as int, e.1 as int, e.2 as int))
    }
}

/// Position of `k` in the bucket, or `-1` when absent.
pub open spec fn find_key(b: BucketView, k: int) -> int
    decreases b.len(),
{
    if b.len() == 0 {
        -1
    } else if b[0].0 == k {
        0
    } else {
        let r = find_key(b.drop_first(), k);
        if r < 0 {
            -1
        } else {
            r + 1
        }
    }
}

pub proof fn lemma_find_key_props(b: BucketView, k: int)
    ensures
        -1 <= find_key(b, k) < b.len(),
        find_key(b, k) >= 0 ==> b[find_key(b, k)].0 == k,
        find_key(b, k) >= 0 ==> forall|j: int| 0 <= j < find_key(b, k) ==> b[j].0 != k,
        find_key(b, k) == -1 ==> forall|j: int| 0 <= j < b.len() ==> b[j].0 != k,
    decreases b.len(),
{
    if b.len() == 0 {
    } else if b[0].0 == k {
    } else {
        let d = b.drop_first();
        lemma_find_key_props(d, k);
        assert(forall|j: int| 0 <= j < d.len() ==> d[j] == b[j + 1]);
        let r = find_key(b, k);
        if r >= 0 {
            assert forall|j: int| 0 <= j < r implies b[j].0 != k by {
                if j > 0 {
                    assert(b[j] == d[j - 1]);
                }
            }
        } else {
            assert forall|j: int| 0 <= j < b.len() implies b[j].0 != k by {
                if j > 0 {
                    assert(b[j] == d[j - 1]);
                }
            }
        }
    }
}

/// `find_key` returns the first occurrence.
pub proof fn lemma_find_key_at(b: BucketView, k: int, j: int)
    requires
        0 <= j < b.len(),
        b[j].0 == k,
        forall|jj: int| 0 <= jj < j ==> b[jj].0 != k,
    ensures
        find_key(b, k) == j,
    decreases b.len(),
{
    if j == 0 {
    } else {
        let d = b.drop_first();
        assert(forall|jj: int| 0 <= jj < j - 1 ==> d[jj].0 != k);
        lemma_find_key_at(d, k, j - 1);
    }
}

/// One contribution of `v` under key `k`: a present key accumulates and
/// counts one more; an absent key enters as `(v, 1)`. No key ever enters
/// with count zero.
pub open spec fn bucket_add(b: BucketView, k: int, v: int) -> BucketView {
    let i = find_key(b, k);
    if i >= 0 {
        b.update(i, (k, b[i].1 + v, b[i].2 + 1))
    } else {
        b.push((k, v, 1))
    }
}

/// One contribution in bucket `g` of the table.
pub open spec fn table_add(t: TableView, g: int, k: int, v: int) -> TableView {
    t.update(g, bucket_add(t[g], k, v))
}

/// Every count in the bucket is at least one and no key repeats.
pub open spec fn bucket_wf(b: BucketView) -> bool {
    &&& (forall|j: int| 0 <= j < b.len() ==> (#[trigger] b[j]).2 >= 1)
    &&& (forall|i: int, j: int| 0 <= i < j < b.len() ==> (#[trigger] b[i]).0 != (#[trigger] b[j]).0)
}

pub proof fn lemma_bucket_add_wf(b: BucketView, k: int, v: int)
    requires
        bucket_wf(b),
    ensures
        bucket_wf(bucket_add(b, k, v)),
        bucket_add(b, k, v).len() >= b.len(),
{
    lemma_find_key_props(b, k);
}

/// The total and count recorded for `k`, `(0, 0)` when absent.
pub open spec fn bucket_entry(b: BucketView, k: int) -> (int, int) {
    let i = find_key(b, k);
    if i >= 0 {
        (b[i].1, b[i].2)
    } else {
        (0, 0)
    }
}

/// `bucket_add` changes exactly the entry of its own key, by `(v, 1)`.
pub proof fn lemma_bucket_add_entry(b: BucketView, k: int, v: int, q: int)
    requires
        bucket_wf(b),
    ensures
        bucket_entry(bucket_add(b, k, v), k).0 == bucket_entry(b, k).0 + v,
        bucket_entry(bucket_add(b, k, v), k).1 == bucket_entry(b, k).1 + 1,
        q != k ==> bucket_entry(bucket_add(b, k, v), q) == bucket_entry(b, q),
{
    lemma_find_key_props(b, k);
    lemma_find_key_props(b, q);
    let b2 = bucket_add(b, k, v);
    let i = find_key(b, k);
    if i >= 0 {
        lemma_find_key_at(b2, k, i);
        if q != k {
            let iq = find_key(b, q);
            if iq >= 0 {
                lemma_find_key_at(b2, q, iq);
            } else {
                assert(forall|j: int| 0 <= j < b2.len() ==> b2[j].0 == b[j].0);
                lemma_find_key_props(b2, q);
                if find_key(b2, q) >= 0 {
                    assert(b2[find_key(b2, q)].0 == q);
                    assert(false);
                }
            }
        }
    } else {
        lemma_find_key_at(b2, k, b.len() as int);
        if q != k {
            let iq = find_key(b, q);
            if iq >= 0 {
                lemma_find_key_at(b2, q, iq);
            } else {
                lemma_find_key_props(b2, q);
                if find_key(b2, q) >= 0 {
                    assert(b2[find_key(b2, q)].0 == q);
                    assert(false);
                }
            }
        }
    }
}

impl AvgValue {
    /// An empty bucket.
    pub fn new() -> (r: AvgValue)
        ensures
            r@ =~= Seq::<(int, int, int)>::empty(),
    {
        AvgValue { entries: Vec::new() }
    }

    /// Record one contribution of `v` under `k`.
    pub fn add(&mut self, k: usize, v: i64)
        requires
            ({
                let i = find_key(old(self)@, k as int);
                i >= 0 ==> {
                    &&& i64::MIN <= old(self)@[i].1 + v <= i64::MAX
                    &&& old(self)@[i].2 + 1 <= u64::MAX
                }
            }),
        ensures
            final(self)@ == bucket_add(old(self)@, k as int, v as int),
    {
        proof {
            lemma_find_key_props(self@, k as int);
        }
        let mut j: usize = 0;
        while j < self.entries.len()
            invariant
                self == old(self),
                j <= self@.len(),
                forall|jj: int| 0 <= jj < j ==> self@[jj].0 != k as int,
                ({
                    let i = find_key(old(self)@, k as int);
                    i >= 0 ==> {
                        &&& i64::MIN <= old(self)@[i].1 + v <= i64::MAX
                        &&& old(self)@[i].2 + 1 <= u64::MAX
                    }
                }),
            decreases self@.len() - j,
        {
            if self.entries[j].0 == k {
                proof {
                    lemma_find_key_at(self@, k as int, j as int);
                }
                let e = self.entries[j];
                self.entries[j] = (e.0, e.1 + v, e.2 + 1);
                proof {
                    assert(self@ =~= bucket_add(old(self)@, k as int, v as int));
                }
                return;
            }
            j = j + 1;
        }
        proof {
            lemma_find_key_props(old(self)@, k as int);
            if find_key(old(self)@, k as int) >= 0 {
                assert(old(self)@[find_key(old(self)@, k as int)].0 == k as int);
                assert(false);
            }
        }
        self.entries.push((k, v, 1));
        proof {
            assert(self@ =~= bucket_add(old(self)@, k as int, v as int));
        }
    }
}

/// A Running-Average Table: one bucket of keyed `(total, count)` pairs per
/// grade level.
pub struct AvgValuePerGrade {
    pub grades: Vec<AvgValue>,
}

impl View for AvgValuePerGrade {
    type V = TableView;

    open spec fn view(&self) -> TableView {
        self.grades@.map_values(|a: AvgValue| a@)
    }
}

/// The table every run starts from: `max_grade` empty buckets.
pub open spec fn empty_table(max_grade: int) -> TableView {
    Seq::new(max_grade as nat, |g: int| Seq::<(int, int, int)>::empty())
}

impl AvgValuePerGrade {
    /// A table of `max_grade` empty buckets.
    pub fn new(max_grade: usize) -> (r: AvgValuePerGrade)
        ensures
            r@ =~= empty_table(max_grade as int),
    {
        let mut grades: Vec<AvgValue> = Vec::new();
        let mut i: usize = 0;
        while i < max_grade
            invariant
                i <= max_grade,
                grades@.len() == i,
                forall|j: int|
                    0 <= j < i ==> (#[trigger] grades@[j])@ =~= Seq::<(int, int, int)>::empty(),
            decreases max_grade - i,
        {
            grades.push(AvgValue::new());
            i = i + 1;
        }
        let r = AvgValuePerGrade { grades };
        proof {
            assert forall|g: int| 0 <= g < max_grade implies r@[g] =~= empty_table(
                max_grade as int,
            )[g] by {}
        }
        r
    }

    /// Record one contribution of `value` under `value_type` in grade
    /// bucket `grade`. A bucket index at or beyond `new`'s `max_grade` is
    /// a caller error.
    pub fn add_value(&mut self, grade: usize, value_type: usize, value: i64)
        requires
            grade < old(self)@.len(),
            ({
                let b = old(self)@[grade as int];
                let i = find_key(b, value_type as int);
                i >= 0 ==> {
                    &&& i64::MIN <= b[i].1 + value <= i64::MAX
                    &&& b[i].2 + 1 <= u64::MAX
                }
            }),
        ensures
            final(self)@ == table_add(old(self)@, grade as int, value_type as int, value as int),
    {
        let mut cell = self.grades.remove(grade);
        proof {
            assert(cell@ == old(self)@[grade as int]);
        }
        cell.add(value_type, value);
        self.grades.insert(grade, cell);
        proof {
            assert(self@ =~= table_add(old(self)@, grade as int, value_type as int, value as int));
        }
    }

    /// Finalize every bucket into per-key averages, in first-contribution
    /// order. A key a bucket never saw does not appear in that bucket.
    pub fn get_result(&self) -> (r: Vec<Vec<(usize, Average)>>)
        ensures
            r@.len() == self@.len(),
            forall|g: int| 0 <= g < self@.len() ==> (#[trigger] r@[g])@.len() == self@[g].len(),
            forall|g: int, j: int|
                0 <= g < self@.len() && 0 <= j < self@[g].len() ==> {
                    &&& (#[trigger] r@[g]@[j]).0 == self@[g][j].0
                    &&& r@[g]@[j].1.total == self@[g][j].1
                    &&& r@[g]@[j].1.count == self@[g][j].2
                },
    {
        let mut r: Vec<Vec<(usize, Average)>> = Vec::new();
        let mut g: usize = 0;
        while g < self.grades.len()
            invariant
                g <= self@.len(),
                r@.len() == g,
                forall|gg: int| 0 <= gg < g ==> (#[trigger] r@[gg])@.len() == self@[gg].len(),
                forall|gg: int, j: int|
                    0 <= gg < g && 0 <= j < self@[gg].len() ==> {
                        &&& (#[trigger] r@[gg]@[j]).0 == self@[gg][j].0
                        &&& r@[gg]@[j].1.total == self@[gg][j].1
                        &&& r@[gg]@[j].1.count == self@[gg][j].2
                    },
            decreases self@.len() - g,
        {
            let cell = &self.grades[g];
            let mut out: Vec<(usize, Average)> = Vec::new();
            let mut j: usize = 0;
            while j < cell.entries.len()
                invariant
                    j <= cell@.len(),
                    out@.len() == j,
                    forall|jj: int|
                        0 <= jj < j ==> {
                            &&& (#[trigger] out@[jj]).0 == cell@[jj].0
                            &&& out@[jj].1.total == cell@[jj].1
                            &&& out@[jj].1.count == cell@[jj].2
                        },
                decreases cell@.len() - j,
            {
                let e = cell.entries[j];
                out.push((e.0, Average { total: e.1, count: e.2 }));
                j = j + 1;
            }
            r.push(out);
            g = g + 1;
        }
        r
    }
}

} // verus!
