//! The mathematical model of one analysis run: for every grouping the
//! engine fills in its single pass, a spec function giving the exact
//! value it must hold afterwards, together with the step lemmas the scan
//! loop uses.
use vstd::prelude::*;

use crate::average::Average;
use crate::average::Mark;
use crate::average::mark_for;
use crate::data::COLOR_COUNT;
use crate::data::GEN_COUNT;
use crate::data::NEUTRAL_MULTIPLIER;
use crate::data::PColors;
use crate::data::PTypes;
use crate::data::StatNames;
use crate::data::TYPING_COUNT;
use crate::data::spec_color_of;
use crate::data::spec_stat_index;
use crate::data::spec_stat_of;
use crate::data::spec_type_of;
use crate::digits::spec_pad4;
use crate::pokemon::PokemonView;
use crate::pokemon::bucket_of;
use crate::pokemon::is_graded;
use crate::pokemon::valid_record;
use crate::ranking::sort_desc;
use crate::sums::sum_by;
use crate::table::BucketView;
use crate::table::TableView;
use crate::table::bucket_add;
use crate::table::bucket_entry;
use crate::table::bucket_wf;
use crate::table::empty_table;
use crate::table::lemma_bucket_add_entry;
use crate::table::lemma_bucket_add_wf;

verus! {

/// Every record the engine accepts: the list is bounded (so that no
/// 64-bit accumulator can overflow) and each record meets its invariant.
pub open spec fn valid_records(recs: Seq<PokemonView>, num_grades: int) -> bool {
    forall|i: int| 0 <= i < recs.len() ==> valid_record(#[trigger] recs[i], num_grades)
}

// ---------------------------------------------------------------------
// Per-record contributions, one spec closure per accumulator, so that
// every context names the identical closure term.
// ---------------------------------------------------------------------
/// Grade-bucket contribution to generation `g` (zero-based).
pub open spec fn gen_total_fn(g: int) -> spec_fn(PokemonView) -> int {
    |r: PokemonView| if is_graded(r) && r.gen_no == g + 1 {
        bucket_of(r)
    } else {
        0
    }
}

/// Head-count contribution to generation `g`.
pub open spec fn gen_count_fn(g: int) -> spec_fn(PokemonView) -> int {
    |r: PokemonView| if is_graded(r) && r.gen_no == g + 1 {
        1int
    } else {
        0
    }
}

/// Grade-bucket contribution to type `t`.
pub open spec fn typ_total_fn(t: PTypes) -> spec_fn(PokemonView) -> int {
    |r: PokemonView| if is_graded(r) && r.typing.contains(t) {
        bucket_of(r)
    } else {
        0
    }
}

/// Head-count contribution to type `t`.
pub open spec fn typ_count_fn(t: PTypes) -> spec_fn(PokemonView) -> int {
    |r: PokemonView| if is_graded(r) && r.typing.contains(t) {
        1int
    } else {
        0
    }
}

/// Grade-bucket contribution to color `c`.
pub open spec fn color_total_fn(c: PColors) -> spec_fn(PokemonView) -> int {
    |r: PokemonView| if is_graded(r) && r.color == c {
        bucket_of(r)
    } else {
        0
    }
}

/// Head-count contribution to color `c`.
pub open spec fn color_count_fn(c: PColors) -> spec_fn(PokemonView) -> int {
    |r: PokemonView| if is_graded(r) && r.color == c {
        1int
    } else {
        0
    }
}

/// Grade-bucket contribution of single-typed records.
pub open spec fn single_total_fn() -> spec_fn(PokemonView) -> int {
    |r: PokemonView| if is_graded(r) && r.typing.len() == 1 {
        bucket_of(r)
    } else {
        0
    }
}

/// Head-count contribution of single-typed records.
pub open spec fn single_count_fn() -> spec_fn(PokemonView) -> int {
    |r: PokemonView| if is_graded(r) && r.typing.len() == 1 {
        1int
    } else {
        0
    }
}

/// Grade-bucket contribution of records that are not single-typed.
pub open spec fn dual_total_fn() -> spec_fn(PokemonView) -> int {
    |r: PokemonView| if is_graded(r) && r.typing.len() != 1 {
        bucket_of(r)
    } else {
        0
    }
}

/// Head-count contribution of records that are not single-typed.
pub open spec fn dual_count_fn() -> spec_fn(PokemonView) -> int {
    |r: PokemonView| if is_graded(r) && r.typing.len() != 1 {
        1int
    } else {
        0
    }
}

/// Manga-appearance contribution to grade bucket `b`.
pub open spec fn manga_total_fn(b: int) -> spec_fn(PokemonView) -> int {
    |r: PokemonView| if is_graded(r) && bucket_of(r) == b {
        r.manga_count
    } else {
        0
    }
}

/// Anime-appearance contribution to grade bucket `b`.
pub open spec fn anime_total_fn(b: int) -> spec_fn(PokemonView) -> int {
    |r: PokemonView| if is_graded(r) && bucket_of(r) == b {
        r.anime_count
    } else {
        0
    }
}

/// Head-count contribution to grade bucket `b`.
pub open spec fn bucket_count_fn(b: int) -> spec_fn(PokemonView) -> int {
    |r: PokemonView| if is_graded(r) && bucket_of(r) == b {
        1int
    } else {
        0
    }
}

// ---------------------------------------------------------------------
// Grouped averages.
// ---------------------------------------------------------------------
/// Per-generation average grade bucket, one entry per generation.
pub open spec fn spec_gen_average(recs: Seq<PokemonView>) -> Seq<Average> {
    Seq::new(
        GEN_COUNT as nat,
        |g: int|
            Average {
                total: sum_by(recs, gen_total_fn(g)) as i64,
                count: sum_by(recs, gen_count_fn(g)) as u64,
            },
    )
}

/// The average for one type.
pub open spec fn typ_avg(recs: Seq<PokemonView>, t: PTypes) -> Average {
    Average {
        total: sum_by(recs, typ_total_fn(t)) as i64,
        count: sum_by(recs, typ_count_fn(t)) as u64,
    }
}

/// The types among the first `k` ordinals that any graded record has,
/// with their averages, in ordinal order.
pub open spec fn typing_pairs(recs: Seq<PokemonView>, k: int) -> Seq<(PTypes, Average)>
    decreases k,
{
    if k <= 0 {
        Seq::empty()
    } else {
        let t = spec_type_of(k - 1);
        let prev = typing_pairs(recs, k - 1);
        if sum_by(recs, typ_count_fn(t)) > 0 {
            prev.push((t, typ_avg(recs, t)))
        } else {
            prev
        }
    }
}

/// The ranked typing grouping: present types, sorted descending.
pub open spec fn spec_typing_average(recs: Seq<PokemonView>) -> Seq<(PTypes, Average)> {
    sort_desc(typing_pairs(recs, TYPING_COUNT as int))
}

/// The average for one color.
pub open spec fn color_avg(recs: Seq<PokemonView>, c: PColors) -> Average {
    Average {
        total: sum_by(recs, color_total_fn(c)) as i64,
        count: sum_by(recs, color_count_fn(c)) as u64,
    }
}

/// The colors among the first `k` ordinals that any graded record has,
/// with their averages, in ordinal order.
pub open spec fn color_pairs(recs: Seq<PokemonView>, k: int) -> Seq<(PColors, Average)>
    decreases k,
{
    if k <= 0 {
        Seq::empty()
    } else {
        let c = spec_color_of(k - 1);
        let prev = color_pairs(recs, k - 1);
        if sum_by(recs, color_count_fn(c)) > 0 {
            prev.push((c, color_avg(recs, c)))
        } else {
            prev
        }
    }
}

/// The ranked color grouping: present colors, sorted descending.
pub open spec fn spec_color_average(recs: Seq<PokemonView>) -> Seq<(PColors, Average)> {
    sort_desc(color_pairs(recs, COLOR_COUNT as int))
}

/// Average grade bucket of single-typed records.
pub open spec fn spec_single_average(recs: Seq<PokemonView>) -> Average {
    Average {
        total: sum_by(recs, single_total_fn()) as i64,
        count: sum_by(recs, single_count_fn()) as u64,
    }
}

/// Average grade bucket of dual-typed records.
pub open spec fn spec_dual_average(recs: Seq<PokemonView>) -> Average {
    Average {
        total: sum_by(recs, dual_total_fn()) as i64,
        count: sum_by(recs, dual_count_fn()) as u64,
    }
}

/// Per-bucket average manga appearances, before marking.
pub open spec fn spec_manga_series(recs: Seq<PokemonView>, n: int) -> Seq<Average> {
    Seq::new(
        n as nat,
        |b: int|
            Average {
                total: sum_by(recs, manga_total_fn(b)) as i64,
                count: sum_by(recs, bucket_count_fn(b)) as u64,
            },
    )
}

/// Per-bucket average anime appearances, before marking.
pub open spec fn spec_anime_series(recs: Seq<PokemonView>, n: int) -> Seq<Average> {
    Seq::new(
        n as nat,
        |b: int|
            Average {
                total: sum_by(recs, anime_total_fn(b)) as i64,
                count: sum_by(recs, bucket_count_fn(b)) as u64,
            },
    )
}

/// A series with every entry carrying its extremal mark.
pub open spec fn marked_series(s: Seq<Average>) -> Seq<(Average, Mark)> {
    Seq::new(s.len(), |b: int| (s[b], mark_for(s, b)))
}

// ---------------------------------------------------------------------
// Extremal name lists.
// ---------------------------------------------------------------------
/// The text recorded for a record: `name (dex, zero-padded to 4)`.
pub open spec fn spec_tag(r: PokemonView) -> Seq<char> {
    r.name + " ("@ + spec_pad4(r.dex_no) + ")"@
}

/// Appends a record's tag when its bucket is `target`.
pub open spec fn scores_step_fn(target: int) -> spec_fn(Seq<Seq<char>>, PokemonView) -> Seq<
    Seq<char>,
> {
    |acc: Seq<Seq<char>>, r: PokemonView|
        if is_graded(r) && bucket_of(r) == target {
            acc.push(spec_tag(r))
        } else {
            acc
        }
}

/// Tags of the records whose bucket is `target`, in input order.
pub open spec fn spec_scores(recs: Seq<PokemonView>, target: int) -> Seq<Seq<char>> {
    recs.fold_left(Seq::<Seq<char>>::empty(), scores_step_fn(target))
}

// ---------------------------------------------------------------------
// The stats table.
// ---------------------------------------------------------------------
/// One record's stat entries applied to its bucket, in entry order.
pub open spec fn stats_bucket_upd(b: BucketView, stats: Seq<(StatNames, i32)>) -> BucketView
    decreases stats.len(),
{
    if stats.len() == 0 {
        b
    } else {
        bucket_add(
            stats_bucket_upd(b, stats.drop_last()),
            spec_stat_index(stats.last().0),
            stats.last().1 as int,
        )
    }
}

/// One record's effect on the stats table.
pub open spec fn stats_step(t: TableView, r: PokemonView) -> TableView {
    if is_graded(r) && 0 <= bucket_of(r) < t.len() {
        t.update(bucket_of(r), stats_bucket_upd(t[bucket_of(r)], r.stats))
    } else {
        t
    }
}

/// The step, as the one closure term every context shares.
pub open spec fn stats_step_fn() -> spec_fn(TableView, PokemonView) -> TableView {
    |t: TableView, r: PokemonView| stats_step(t, r)
}

/// The raw stats table after the whole scan.
pub open spec fn spec_stats_table(recs: Seq<PokemonView>, n: int) -> TableView {
    recs.fold_left(empty_table(n), stats_step_fn())
}

/// The value a record's stat list carries for stat ordinal `q` (its
/// first entry of that name), if any.
pub open spec fn stats_explicit(stats: Seq<(StatNames, i32)>, q: int) -> Option<i32>
    decreases stats.len(),
{
    if stats.len() == 0 {
        None
    } else if spec_stat_index(stats[0].0) == q {
        Some(stats[0].1)
    } else {
        stats_explicit(stats.drop_first(), q)
    }
}

// ---------------------------------------------------------------------
// The matchup table, with neutral expansion.
// ---------------------------------------------------------------------
/// The multiplier a record's sparse matchup list carries for `t` (its
/// first entry listing `t`), if any.
pub open spec fn explicit_mult(m: Seq<(i32, Seq<PTypes>)>, t: PTypes) -> Option<i32>
    decreases m.len(),
{
    if m.len() == 0 {
        None
    } else if m[0].1.contains(t) {
        Some(m[0].0)
    } else {
        explicit_mult(m.drop_first(), t)
    }
}

/// The dense multiplier of a record against type `t`: the listed value,
/// or neutral when unlisted.
pub open spec fn mult_of(r: PokemonView, t: PTypes) -> int {
    match explicit_mult(r.matchups, t) {
        Some(v) => v as int,
        None => NEUTRAL_MULTIPLIER as int,
    }
}

/// One record's matchup contributions for the first `k` type ordinals
/// applied to its bucket, in ordinal order.
pub open spec fn matchup_bucket_upd(b: BucketView, r: PokemonView, k: int) -> BucketView
    decreases k,
{
    if k <= 0 {
        b
    } else {
        bucket_add(matchup_bucket_upd(b, r, k - 1), k - 1, mult_of(r, spec_type_of(k - 1)))
    }
}

/// One record's effect on the matchup table: one contribution for every
/// type, explicit or neutral.
pub open spec fn matchup_step(t: TableView, r: PokemonView) -> TableView {
    if is_graded(r) && 0 <= bucket_of(r) < t.len() {
        t.update(bucket_of(r), matchup_bucket_upd(t[bucket_of(r)], r, TYPING_COUNT as int))
    } else {
        t
    }
}

/// The step, as the one closure term every context shares.
pub open spec fn matchup_step_fn() -> spec_fn(TableView, PokemonView) -> TableView {
    |t: TableView, r: PokemonView| matchup_step(t, r)
}

/// The raw matchup table after the whole scan.
pub open spec fn spec_matchup_table(recs: Seq<PokemonView>, n: int) -> TableView {
    recs.fold_left(empty_table(n), matchup_step_fn())
}

/// Distinct stat names have distinct ordinals.
pub proof fn lemma_stat_index_injective(a: StatNames, b: StatNames)
    requires
        a != b,
    ensures
        spec_stat_index(a) != spec_stat_index(b),
{
}

/// How appending one stat entry changes the first-match lookup.
pub proof fn lemma_stats_explicit_push(d: Seq<(StatNames, i32)>, x: (StatNames, i32), q: int)
    ensures
        stats_explicit(d.push(x), q) == (if stats_explicit(d, q) is Some {
            stats_explicit(d, q)
        } else if spec_stat_index(x.0) == q {
            Some(x.1)
        } else {
            None
        }),
    decreases d.len(),
{
    let p = d.push(x);
    if d.len() == 0 {
        assert(p[0] == x);
        assert(p.drop_first() =~= Seq::<(StatNames, i32)>::empty());
        assert(stats_explicit(d, q) is None);
        if spec_stat_index(x.0) != q {
            assert(stats_explicit(p, q) == stats_explicit(p.drop_first(), q));
            assert(stats_explicit(Seq::<(StatNames, i32)>::empty(), q) is None);
        }
    } else {
        assert(p[0] == d[0]);
        assert(p.drop_first() =~= d.drop_first().push(x));
        lemma_stats_explicit_push(d.drop_first(), x, q);
        if spec_stat_index(d[0].0) == q {
            assert(stats_explicit(p, q) == Some(d[0].1));
            assert(stats_explicit(d, q) == Some(d[0].1));
        } else {
            assert(stats_explicit(p, q) == stats_explicit(d.drop_first().push(x), q));
            assert(stats_explicit(d, q) == stats_explicit(d.drop_first(), q));
        }
    }
}

/// A list none of whose entries carry ordinal `q` looks `q` up as absent.
pub proof fn lemma_stats_explicit_none(d: Seq<(StatNames, i32)>, q: int)
    requires
        forall|j: int| 0 <= j < d.len() ==> spec_stat_index((#[trigger] d[j]).0) != q,
    ensures
        stats_explicit(d, q) is None,
    decreases d.len(),
{
    if d.len() > 0 {
        assert(forall|j: int|
            0 <= j < d.drop_first().len() ==> d.drop_first()[j] == d[j + 1]);
        lemma_stats_explicit_none(d.drop_first(), q);
    }
}

/// Applying a record's stat entries changes exactly the entries of the
/// stat ordinals it names, each by `(value, 1)`, keeps the bucket well
/// formed, and introduces only stat ordinals as new keys.
pub proof fn lemma_stats_upd_entry(b: BucketView, stats: Seq<(StatNames, i32)>)
    requires
        bucket_wf(b),
        forall|i: int, j: int|
            0 <= i < j < stats.len() ==> (#[trigger] stats[i]).0 != (#[trigger] stats[j]).0,
    ensures
        bucket_wf(stats_bucket_upd(b, stats)),
        forall|q: int|
            #[trigger] bucket_entry(stats_bucket_upd(b, stats), q) == (match stats_explicit(
                stats,
                q,
            ) {
                Some(v) => (bucket_entry(b, q).0 + v, bucket_entry(b, q).1 + 1),
                None => bucket_entry(b, q),
            }),
        forall|jj: int|
            0 <= jj < stats_bucket_upd(b, stats).len() ==> ((exists|ii: int|
                0 <= ii < b.len() && (#[trigger] b[ii]).0 == (#[trigger] stats_bucket_upd(
                    b,
                    stats,
                )[jj]).0) || 0 <= stats_bucket_upd(b, stats)[jj].0 < 6),
    decreases stats.len(),
{
    if stats.len() == 0 {
    } else {
        let d = stats.drop_last();
        let x = stats.last();
        let kx = spec_stat_index(x.0);
        let mid = stats_bucket_upd(b, d);
        lemma_stats_upd_entry(b, d);
        lemma_bucket_add_wf(mid, kx, x.1 as int);
        assert(d.push(x) =~= stats);
        assert forall|q: int|
            #[trigger] bucket_entry(stats_bucket_upd(b, stats), q) == (match stats_explicit(
                stats,
                q,
            ) {
                Some(v) => (bucket_entry(b, q).0 + v, bucket_entry(b, q).1 + 1),
                None => bucket_entry(b, q),
            }) by {
            lemma_bucket_add_entry(mid, kx, x.1 as int, q);
            lemma_stats_explicit_push(d, x, q);
            if q == kx {
                assert forall|j: int| 0 <= j < d.len() implies spec_stat_index(
                    (#[trigger] d[j]).0,
                ) != q by {
                    assert(d[j] == stats[j]);
                    lemma_stat_index_injective(stats[j].0, x.0);
                }
                lemma_stats_explicit_none(d, q);
            }
        }
        assert forall|jj: int| 0 <= jj < stats_bucket_upd(b, stats).len() implies ((exists|ii: int|
            0 <= ii < b.len() && (#[trigger] b[ii]).0 == (#[trigger] stats_bucket_upd(
                b,
                stats,
            )[jj]).0) || 0 <= stats_bucket_upd(b, stats)[jj].0 < 6) by {
            let res = stats_bucket_upd(b, stats);
            crate::table::lemma_find_key_props(mid, kx);
            let i = crate::table::find_key(mid, kx);
            if i >= 0 {
                if jj == i {
                    assert(res[jj].0 == kx);
                } else {
                    assert(res[jj] == mid[jj]);
                }
            } else {
                if jj == mid.len() {
                    assert(res[jj].0 == kx);
                } else {
                    assert(res[jj] == mid[jj]);
                }
            }
        }
    }
}

/// First-match search for a type over the sparse matchup list.
pub proof fn lemma_explicit_mult_at(m: Seq<(i32, Seq<PTypes>)>, t: PTypes, j: int)
    requires
        0 <= j < m.len(),
        m[j].1.contains(t),
        forall|jj: int| 0 <= jj < j ==> !(#[trigger] m[jj]).1.contains(t),
    ensures
        explicit_mult(m, t) == Some(m[j].0),
    decreases m.len(),
{
    if j == 0 {
    } else {
        let d = m.drop_first();
        assert(forall|jj: int| 0 <= jj < d.len() ==> d[jj] == m[jj + 1]);
        assert(forall|jj: int| 0 <= jj < j - 1 ==> !(#[trigger] d[jj]).1.contains(t));
        lemma_explicit_mult_at(d, t, j - 1);
    }
}

/// A list none of whose entries mention `t` looks `t` up as absent.
pub proof fn lemma_explicit_mult_none(m: Seq<(i32, Seq<PTypes>)>, t: PTypes)
    requires
        forall|jj: int| 0 <= jj < m.len() ==> !(#[trigger] m[jj]).1.contains(t),
    ensures
        explicit_mult(m, t) is None,
    decreases m.len(),
{
    if m.len() > 0 {
        let d = m.drop_first();
        assert(forall|jj: int| 0 <= jj < d.len() ==> d[jj] == m[jj + 1]);
        lemma_explicit_mult_none(d, t);
    }
}

/// Applying a record's matchup contributions for the first `k` type
/// ordinals changes exactly those entries, each by the record's dense
/// multiplier and one count, keeps the bucket well formed, and
/// introduces only type ordinals below `k` as new keys.
pub proof fn lemma_matchup_upd_entry(b: BucketView, r: PokemonView, k: int)
    requires
        bucket_wf(b),
        0 <= k <= TYPING_COUNT,
    ensures
        bucket_wf(matchup_bucket_upd(b, r, k)),
        forall|q: int|
            #[trigger] bucket_entry(matchup_bucket_upd(b, r, k), q) == (if 0 <= q < k {
                (
                    bucket_entry(b, q).0 + mult_of(r, spec_type_of(q)),
                    bucket_entry(b, q).1 + 1,
                )
            } else {
                bucket_entry(b, q)
            }),
        forall|jj: int|
            0 <= jj < matchup_bucket_upd(b, r, k).len() ==> ((exists|ii: int|
                0 <= ii < b.len() && (#[trigger] b[ii]).0 == (#[trigger] matchup_bucket_upd(
                    b,
                    r,
                    k,
                )[jj]).0) || 0 <= matchup_bucket_upd(b, r, k)[jj].0 < k),
    decreases k,
{
    if k <= 0 {
    } else {
        let mid = matchup_bucket_upd(b, r, k - 1);
        let v = mult_of(r, spec_type_of(k - 1));
        lemma_matchup_upd_entry(b, r, k - 1);
        lemma_bucket_add_wf(mid, k - 1, v);
        assert forall|q: int|
            #[trigger] bucket_entry(matchup_bucket_upd(b, r, k), q) == (if 0 <= q < k {
                (
                    bucket_entry(b, q).0 + mult_of(r, spec_type_of(q)),
                    bucket_entry(b, q).1 + 1,
                )
            } else {
                bucket_entry(b, q)
            }) by {
            lemma_bucket_add_entry(mid, k - 1, v, q);
        }
        assert forall|jj: int| 0 <= jj < matchup_bucket_upd(b, r, k).len() implies ((exists|
            ii: int,
        |
            0 <= ii < b.len() && (#[trigger] b[ii]).0 == (#[trigger] matchup_bucket_upd(
                b,
                r,
                k,
            )[jj]).0) || 0 <= matchup_bucket_upd(b, r, k)[jj].0 < k) by {
            let res = matchup_bucket_upd(b, r, k);
            crate::table::lemma_find_key_props(mid, k - 1);
            let i = crate::table::find_key(mid, k - 1);
            if i >= 0 {
                if jj == i {
                    assert(res[jj].0 == k - 1);
                } else {
                    assert(res[jj] == mid[jj]);
                }
            } else {
                if jj == mid.len() {
                    assert(res[jj].0 == k - 1);
                } else {
                    assert(res[jj] == mid[jj]);
                }
            }
        }
    }
}

/// A record with no grade contributes to nothing: every accumulator is
/// the same over the prefix with and without it.
pub proof fn lemma_scan_ungraded(recs: Seq<PokemonView>, n: int, i: int)
    requires
        0 <= i < recs.len(),
        !is_graded(recs[i]),
    ensures
        forall|g: int|
            #[trigger] sum_by(recs.take(i + 1), gen_total_fn(g)) == sum_by(
                recs.take(i),
                gen_total_fn(g),
            ),
        forall|g: int|
            #[trigger] sum_by(recs.take(i + 1), gen_count_fn(g)) == sum_by(
                recs.take(i),
                gen_count_fn(g),
            ),
        forall|t: PTypes|
            #[trigger] sum_by(recs.take(i + 1), typ_total_fn(t)) == sum_by(
                recs.take(i),
                typ_total_fn(t),
            ),
        forall|t: PTypes|
            #[trigger] sum_by(recs.take(i + 1), typ_count_fn(t)) == sum_by(
                recs.take(i),
                typ_count_fn(t),
            ),
        forall|c: PColors|
            #[trigger] sum_by(recs.take(i + 1), color_total_fn(c)) == sum_by(
                recs.take(i),
                color_total_fn(c),
            ),
        forall|c: PColors|
            #[trigger] sum_by(recs.take(i + 1), color_count_fn(c)) == sum_by(
                recs.take(i),
                color_count_fn(c),
            ),
        sum_by(recs.take(i + 1), single_total_fn()) == sum_by(recs.take(i), single_total_fn()),
        sum_by(recs.take(i + 1), single_count_fn()) == sum_by(recs.take(i), single_count_fn()),
        sum_by(recs.take(i + 1), dual_total_fn()) == sum_by(recs.take(i), dual_total_fn()),
        sum_by(recs.take(i + 1), dual_count_fn()) == sum_by(recs.take(i), dual_count_fn()),
        forall|b: int|
            #[trigger] sum_by(recs.take(i + 1), manga_total_fn(b)) == sum_by(
                recs.take(i),
                manga_total_fn(b),
            ),
        forall|b: int|
            #[trigger] sum_by(recs.take(i + 1), anime_total_fn(b)) == sum_by(
                recs.take(i),
                anime_total_fn(b),
            ),
        forall|b: int|
            #[trigger] sum_by(recs.take(i + 1), bucket_count_fn(b)) == sum_by(
                recs.take(i),
                bucket_count_fn(b),
            ),
        forall|t: int|
            #[trigger] spec_scores(recs.take(i + 1), t) == spec_scores(recs.take(i), t),
        spec_stats_table(recs.take(i + 1), n) == spec_stats_table(recs.take(i), n),
        spec_matchup_table(recs.take(i + 1), n) == spec_matchup_table(recs.take(i), n),
{
    let r = recs[i];
    assert(recs.take(i + 1).drop_last() =~= recs.take(i));
    assert(recs.take(i + 1).last() == r);
    assert forall|g: int|
        #[trigger] sum_by(recs.take(i + 1), gen_total_fn(g)) == sum_by(
            recs.take(i),
            gen_total_fn(g),
        ) && #[trigger] sum_by(recs.take(i + 1), gen_count_fn(g)) == sum_by(
            recs.take(i),
            gen_count_fn(g),
        ) by {
        crate::sums::lemma_sum_by_take_succ(recs, gen_total_fn(g), i);
        crate::sums::lemma_sum_by_take_succ(recs, gen_count_fn(g), i);
    }
    assert forall|t: PTypes|
        #[trigger] sum_by(recs.take(i + 1), typ_total_fn(t)) == sum_by(
            recs.take(i),
            typ_total_fn(t),
        ) && #[trigger] sum_by(recs.take(i + 1), typ_count_fn(t)) == sum_by(
            recs.take(i),
            typ_count_fn(t),
        ) by {
        crate::sums::lemma_sum_by_take_succ(recs, typ_total_fn(t), i);
        crate::sums::lemma_sum_by_take_succ(recs, typ_count_fn(t), i);
    }
    assert forall|c: PColors|
        #[trigger] sum_by(recs.take(i + 1), color_total_fn(c)) == sum_by(
            recs.take(i),
            color_total_fn(c),
        ) && #[trigger] sum_by(recs.take(i + 1), color_count_fn(c)) == sum_by(
            recs.take(i),
            color_count_fn(c),
        ) by {
        crate::sums::lemma_sum_by_take_succ(recs, color_total_fn(c), i);
        crate::sums::lemma_sum_by_take_succ(recs, color_count_fn(c), i);
    }
    crate::sums::lemma_sum_by_take_succ(recs, single_total_fn(), i);
    crate::sums::lemma_sum_by_take_succ(recs, single_count_fn(), i);
    crate::sums::lemma_sum_by_take_succ(recs, dual_total_fn(), i);
    crate::sums::lemma_sum_by_take_succ(recs, dual_count_fn(), i);
    assert forall|b: int|
        #[trigger] sum_by(recs.take(i + 1), manga_total_fn(b)) == sum_by(
            recs.take(i),
            manga_total_fn(b),
        ) && #[trigger] sum_by(recs.take(i + 1), anime_total_fn(b)) == sum_by(
            recs.take(i),
            anime_total_fn(b),
        ) && #[trigger] sum_by(recs.take(i + 1), bucket_count_fn(b)) == sum_by(
            recs.take(i),
            bucket_count_fn(b),
        ) by {
        crate::sums::lemma_sum_by_take_succ(recs, manga_total_fn(b), i);
        crate::sums::lemma_sum_by_take_succ(recs, anime_total_fn(b), i);
        crate::sums::lemma_sum_by_take_succ(recs, bucket_count_fn(b), i);
    }
    assert forall|t: int|
        #[trigger] spec_scores(recs.take(i + 1), t) == spec_scores(recs.take(i), t) by {
        crate::sums::lemma_fold_left_take_succ(
            recs,
            Seq::<Seq<char>>::empty(),
            scores_step_fn(t),
            i,
        );
    }
    crate::sums::lemma_fold_left_take_succ(recs, empty_table(n), stats_step_fn(), i);
    crate::sums::lemma_fold_left_take_succ(recs, empty_table(n), matchup_step_fn(), i);
    assert(stats_step(spec_stats_table(recs.take(i), n), r) == spec_stats_table(recs.take(i), n));
    assert(matchup_step(spec_matchup_table(recs.take(i), n), r) == spec_matchup_table(
        recs.take(i),
        n,
    ));
}

// ---------------------------------------------------------------------
// Finalized tables.
// ---------------------------------------------------------------------
/// A finalized stats table: ordinals named, totals and counts paired.
pub open spec fn finalize_stats(t: TableView) -> Seq<Seq<(StatNames, Average)>> {
    t.map_values(
        |b: BucketView|
            b.map_values(
                |e: (int, int, int)|
                    (spec_stat_of(e.0), Average { total: e.1 as i64, count: e.2 as u64 }),
            ),
    )
}

/// A finalized matchup table: ordinals named, totals and counts paired.
pub open spec fn finalize_matchups(t: TableView) -> Seq<Seq<(PTypes, Average)>> {
    t.map_values(
        |b: BucketView|
            b.map_values(
                |e: (int, int, int)|
                    (spec_type_of(e.0), Average { total: e.1 as i64, count: e.2 as u64 }),
            ),
    )
}

// ---------------------------------------------------------------------
// The whole report.
// ---------------------------------------------------------------------
/// The mathematical shape of an analysis report.
#[verifier::ext_equal]
pub ghost struct AnalysisView {
    pub perfect_scores: Seq<Seq<char>>,
    pub worst_scores: Seq<Seq<char>>,
    pub gen_average: Seq<Average>,
    pub typing_average: Seq<(PTypes, Average)>,
    pub color_average: Seq<(PColors, Average)>,
    pub dual_type_average: Average,
    pub single_type_average: Average,
    pub manga_average: Seq<(Average, Mark)>,
    pub anime_average: Seq<(Average, Mark)>,
    pub stats_data: Seq<Seq<(StatNames, Average)>>,
    pub matchup_data: Seq<Seq<(PTypes, Average)>>,
}

/// What one analysis run returns, as a function of the records and the
/// number of grade levels alone.
pub open spec fn spec_analysis(recs: Seq<PokemonView>, n: int) -> AnalysisView {
    AnalysisView {
        perfect_scores: spec_scores(recs, n - 1),
        worst_scores: spec_scores(recs, 0),
        gen_average: spec_gen_average(recs),
        typing_average: spec_typing_average(recs),
        color_average: spec_color_average(recs),
        dual_type_average: spec_dual_average(recs),
        single_type_average: spec_single_average(recs),
        manga_average: marked_series(spec_manga_series(recs, n)),
        anime_average: marked_series(spec_anime_series(recs, n)),
        stats_data: finalize_stats(spec_stats_table(recs, n)),
        matchup_data: finalize_matchups(spec_matchup_table(recs, n)),
    }
}

} // verus!
