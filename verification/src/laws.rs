//! The aggregation laws: what holds of every analysis run, proved once
//! and for all over the model that [`crate::analysis::run_analysis`]'s
//! contract pins its result to.
use vstd::prelude::*;

use crate::analysis::AnalysisOutput;
use crate::data::GEN_COUNT;
use crate::data::PColors;
use crate::data::PTypes;
use crate::data::TYPING_COUNT;
use crate::data::spec_type_of;
use crate::model::anime_total_fn;
use crate::model::bucket_count_fn;
use crate::model::color_count_fn;
use crate::model::color_pairs;
use crate::model::color_total_fn;
use crate::model::dual_count_fn;
use crate::model::dual_total_fn;
use crate::model::gen_count_fn;
use crate::model::gen_total_fn;
use crate::model::manga_total_fn;
use crate::model::matchup_step_fn;
use crate::model::mult_of;
use crate::model::scores_step_fn;
use crate::model::single_count_fn;
use crate::model::single_total_fn;
use crate::model::spec_analysis;
use crate::model::spec_matchup_table;
use crate::model::spec_stats_table;
use crate::model::stats_step_fn;
use crate::model::typ_count_fn;
use crate::model::typ_total_fn;
use crate::model::typing_pairs;
use crate::pokemon::PokemonView;
use crate::pokemon::bucket_of;
use crate::pokemon::is_graded;
use crate::sums::lemma_fold_left_remove_id;
use crate::sums::lemma_sum_by_remove;
use crate::sums::sum_by;
use crate::table::bucket_entry;
use crate::table::bucket_wf;
use crate::table::empty_table;

verus! {

/// Determinism: the report is a function of the records and the number
/// of grade levels alone. `run_analysis` ensures its result's view
/// equals `spec_analysis` of its inputs, so two runs on identical
/// inputs return reports with one and the same view — the same lists in
/// the same order, the same sort order, the same extremal marks.
pub proof fn lemma_analysis_deterministic(
    a: AnalysisOutput,
    b: AnalysisOutput,
    recs: Seq<PokemonView>,
    n: int,
)
    requires
        a@ == spec_analysis(recs, n),
        b@ == spec_analysis(recs, n),
    ensures
        a@ == b@,
{
}

/// Pairs built from equal per-type sums are equal.
proof fn lemma_typing_pairs_congruent(r1: Seq<PokemonView>, r2: Seq<PokemonView>, k: int)
    requires
        forall|t: PTypes| #[trigger] sum_by(r1, typ_total_fn(t)) == sum_by(r2, typ_total_fn(t)),
        forall|t: PTypes| #[trigger] sum_by(r1, typ_count_fn(t)) == sum_by(r2, typ_count_fn(t)),
    ensures
        typing_pairs(r1, k) == typing_pairs(r2, k),
    decreases k,
{
    if k > 0 {
        lemma_typing_pairs_congruent(r1, r2, k - 1);
    }
}

/// Pairs built from equal per-color sums are equal.
proof fn lemma_color_pairs_congruent(r1: Seq<PokemonView>, r2: Seq<PokemonView>, k: int)
    requires
        forall|c: PColors|
            #[trigger] sum_by(r1, color_total_fn(c)) == sum_by(r2, color_total_fn(c)),
        forall|c: PColors|
            #[trigger] sum_by(r1, color_count_fn(c)) == sum_by(r2, color_count_fn(c)),
    ensures
        color_pairs(r1, k) == color_pairs(r2, k),
    decreases k,
{
    if k > 0 {
        lemma_color_pairs_congruent(r1, r2, k - 1);
    }
}

/// Skip-on-null: a record with no grade contributes to no accumulator;
/// removing it from the input leaves the whole report unchanged.
pub proof fn lemma_skip_ungraded(recs: Seq<PokemonView>, n: int, i: int)
    requires
        0 <= i < recs.len(),
        !is_graded(recs[i]),
    ensures
        spec_analysis(recs.remove(i), n) == spec_analysis(recs, n),
{
    let r = recs[i];
    let rest = recs.remove(i);
    assert forall|g: int| #[trigger] sum_by(rest, gen_total_fn(g)) == sum_by(
        recs,
        gen_total_fn(g),
    ) by {
        lemma_sum_by_remove(recs, gen_total_fn(g), i);
    }
    assert forall|g: int| #[trigger] sum_by(rest, gen_count_fn(g)) == sum_by(
        recs,
        gen_count_fn(g),
    ) by {
        lemma_sum_by_remove(recs, gen_count_fn(g), i);
    }
    assert forall|t: PTypes| #[trigger] sum_by(rest, typ_total_fn(t)) == sum_by(
        recs,
        typ_total_fn(t),
    ) by {
        lemma_sum_by_remove(recs, typ_total_fn(t), i);
    }
    assert forall|t: PTypes| #[trigger] sum_by(rest, typ_count_fn(t)) == sum_by(
        recs,
        typ_count_fn(t),
    ) by {
        lemma_sum_by_remove(recs, typ_count_fn(t), i);
    }
    assert forall|c: PColors| #[trigger] sum_by(rest, color_total_fn(c)) == sum_by(
        recs,
        color_total_fn(c),
    ) by {
        lemma_sum_by_remove(recs, color_total_fn(c), i);
    }
    assert forall|c: PColors| #[trigger] sum_by(rest, color_count_fn(c)) == sum_by(
        recs,
        color_count_fn(c),
    ) by {
        lemma_sum_by_remove(recs, color_count_fn(c), i);
    }
    lemma_sum_by_remove(recs, single_total_fn(), i);
    lemma_sum_by_remove(recs, single_count_fn(), i);
    lemma_sum_by_remove(recs, dual_total_fn(), i);
    lemma_sum_by_remove(recs, dual_count_fn(), i);
    assert forall|b: int| #[trigger] sum_by(rest, manga_total_fn(b)) == sum_by(
        recs,
        manga_total_fn(b),
    ) by {
        lemma_sum_by_remove(recs, manga_total_fn(b), i);
    }
    assert forall|b: int| #[trigger] sum_by(rest, anime_total_fn(b)) == sum_by(
        recs,
        anime_total_fn(b),
    ) by {
        lemma_sum_by_remove(recs, anime_total_fn(b), i);
    }
    assert forall|b: int| #[trigger] sum_by(rest, bucket_count_fn(b)) == sum_by(
        recs,
        bucket_count_fn(b),
    ) by {
        lemma_sum_by_remove(recs, bucket_count_fn(b), i);
    }
    assert forall|x: Seq<Seq<char>>| #[trigger] scores_step_fn(n - 1)(x, r) == x by {}
    lemma_fold_left_remove_id(recs, Seq::<Seq<char>>::empty(), scores_step_fn(n - 1), i);
    assert forall|x: Seq<Seq<char>>| #[trigger] scores_step_fn(0)(x, r) == x by {}
    lemma_fold_left_remove_id(recs, Seq::<Seq<char>>::empty(), scores_step_fn(0), i);
    assert forall|x: crate::table::TableView| #[trigger] stats_step_fn()(x, r) == x by {}
    lemma_fold_left_remove_id(recs, empty_table(n), stats_step_fn(), i);
    assert forall|x: crate::table::TableView| #[trigger] matchup_step_fn()(x, r) == x by {}
    lemma_fold_left_remove_id(recs, empty_table(n), matchup_step_fn(), i);
    lemma_typing_pairs_congruent(rest, recs, TYPING_COUNT as int);
    lemma_color_pairs_congruent(rest, recs, crate::data::COLOR_COUNT as int);
    assert(crate::model::spec_gen_average(rest) =~= crate::model::spec_gen_average(recs));
    assert(crate::model::spec_manga_series(rest, n) =~= crate::model::spec_manga_series(recs, n));
    assert(crate::model::spec_anime_series(rest, n) =~= crate::model::spec_anime_series(recs, n));
    assert(spec_analysis(rest, n) =~= spec_analysis(recs, n));
}

/// The ranked groupings are sorted descending by average and hold
/// exactly the present types and colors: each is a permutation of the
/// unsorted pairs, in which a type or color appears once exactly when
/// some graded record carries it.
pub proof fn lemma_ranked_groupings_sorted(recs: Seq<PokemonView>, n: int)
    ensures
        crate::ranking::sorted_desc(spec_analysis(recs, n).typing_average),
        crate::ranking::sorted_desc(spec_analysis(recs, n).color_average),
        spec_analysis(recs, n).typing_average.to_multiset() == typing_pairs(
            recs,
            TYPING_COUNT as int,
        ).to_multiset(),
        spec_analysis(recs, n).color_average.to_multiset() == color_pairs(
            recs,
            crate::data::COLOR_COUNT as int,
        ).to_multiset(),
{
    crate::ranking::lemma_sort_desc_props(typing_pairs(recs, TYPING_COUNT as int));
    crate::ranking::lemma_sort_desc_props(color_pairs(recs, crate::data::COLOR_COUNT as int));
}

/// With a single grade level the highest and lowest buckets coincide,
/// and every graded record is recorded in both extremal lists alike.
pub proof fn lemma_single_level_lists_agree(recs: Seq<PokemonView>)
    ensures
        spec_analysis(recs, 1).perfect_scores == spec_analysis(recs, 1).worst_scores,
{
}

/// The dense multiplier contribution of a record to bucket `b` under
/// type ordinal `t`: its explicit or neutral value when the record is
/// graded into `b`, nothing otherwise.
pub open spec fn matchup_contrib_fn(b: int, t: int) -> spec_fn(PokemonView) -> int {
    |r: PokemonView| if is_graded(r) && bucket_of(r) == b {
        mult_of(r, spec_type_of(t))
    } else {
        0
    }
}

/// The matchup table keeps its shape through the scan: `n` buckets,
/// every bucket well formed.
proof fn lemma_matchup_table_shape(recs: Seq<PokemonView>, n: int)
    requires
        0 <= n,
    ensures
        spec_matchup_table(recs, n).len() == n,
        forall|g: int| 0 <= g < n ==> bucket_wf(#[trigger] spec_matchup_table(recs, n)[g]),
    decreases recs.len(),
{
    if recs.len() == 0 {
        assert(spec_matchup_table(recs, n) == empty_table(n));
    } else {
        let d = recs.drop_last();
        let r = recs.last();
        lemma_matchup_table_shape(d, n);
        let prev = spec_matchup_table(d, n);
        assert(spec_matchup_table(recs, n) == matchup_step_fn()(prev, r));
        if is_graded(r) && 0 <= bucket_of(r) < prev.len() {
            crate::model::lemma_matchup_upd_entry(prev[bucket_of(r)], r, TYPING_COUNT as int);
        }
    }
}

/// The stats table keeps its shape through the scan: `n` buckets.
proof fn lemma_stats_table_len(recs: Seq<PokemonView>, n: int)
    requires
        0 <= n,
    ensures
        spec_stats_table(recs, n).len() == n,
    decreases recs.len(),
{
    if recs.len() == 0 {
        assert(spec_stats_table(recs, n) == empty_table(n));
    } else {
        let d = recs.drop_last();
        lemma_stats_table_len(d, n);
        assert(spec_stats_table(recs, n) == stats_step_fn()(spec_stats_table(d, n), recs.last()));
    }
}

/// Neutral-expansion completeness: every graded record contributes to
/// its bucket exactly once for every one of the 18 types — its listed
/// multiplier where the sparse matchup list names the type, the neutral
/// value otherwise. So in the finished matchup table, the count under
/// any type ordinal `t` in bucket `b` is exactly the number of graded
/// records of bucket `b`, and the total is the sum of those records'
/// dense multipliers against `t`.
pub proof fn lemma_neutral_expansion(recs: Seq<PokemonView>, n: int, b: int, t: int)
    requires
        1 <= n,
        0 <= b < n,
        0 <= t < TYPING_COUNT,
    ensures
        bucket_entry(spec_matchup_table(recs, n)[b], t).1 == sum_by(recs, bucket_count_fn(b)),
        bucket_entry(spec_matchup_table(recs, n)[b], t).0 == sum_by(recs, matchup_contrib_fn(b, t)),
    decreases recs.len(),
{
    if recs.len() == 0 {
        assert(spec_matchup_table(recs, n) == empty_table(n));
        assert(crate::table::find_key(spec_matchup_table(recs, n)[b], t) == -1);
    } else {
        let d = recs.drop_last();
        let r = recs.last();
        lemma_neutral_expansion(d, n, b, t);
        lemma_matchup_table_shape(d, n);
        let prev = spec_matchup_table(d, n);
        assert(spec_matchup_table(recs, n) == matchup_step_fn()(prev, r));
        if is_graded(r) && 0 <= bucket_of(r) < n {
            crate::model::lemma_matchup_upd_entry(prev[bucket_of(r)], r, TYPING_COUNT as int);
            if bucket_of(r) == b {
                assert(bucket_entry(spec_matchup_table(recs, n)[b], t).1 == bucket_entry(
                    prev[b],
                    t,
                ).1 + 1);
            } else {
                assert(spec_matchup_table(recs, n)[b] == prev[b]);
            }
        }
    }
}

/// The stats table keeps its shape through the scan of valid records:
/// `n` buckets, every bucket well formed.
proof fn lemma_stats_table_shape(recs: Seq<PokemonView>, n: int)
    requires
        0 <= n,
        crate::model::valid_records(recs, n),
    ensures
        spec_stats_table(recs, n).len() == n,
        forall|g: int| 0 <= g < n ==> bucket_wf(#[trigger] spec_stats_table(recs, n)[g]),
    decreases recs.len(),
{
    if recs.len() == 0 {
        assert(spec_stats_table(recs, n) == empty_table(n));
    } else {
        let d = recs.drop_last();
        let r = recs.last();
        assert(crate::model::valid_records(d, n)) by {
            assert(forall|i: int| 0 <= i < d.len() ==> d[i] == recs[i]);
        }
        lemma_stats_table_shape(d, n);
        let prev = spec_stats_table(d, n);
        assert(spec_stats_table(recs, n) == stats_step_fn()(prev, r));
        if is_graded(r) && 0 <= bucket_of(r) < prev.len() {
            assert(crate::pokemon::valid_record(r, n));
            crate::model::lemma_stats_upd_entry(prev[bucket_of(r)], r.stats);
        }
    }
}

/// No zero-count keys: a key exists in a bucket of a finished table only
/// with at least one recorded contribution, so finalizing never divides
/// by zero.
pub proof fn lemma_no_zero_count_keys(recs: Seq<PokemonView>, n: int)
    requires
        1 <= n,
        crate::model::valid_records(recs, n),
    ensures
        forall|g: int, j: int|
            0 <= g < n && 0 <= j < spec_stats_table(recs, n)[g].len() ==> (
            #[trigger] spec_stats_table(recs, n)[g][j]).2 >= 1,
        forall|g: int, j: int|
            0 <= g < n && 0 <= j < spec_matchup_table(recs, n)[g].len() ==> (
            #[trigger] spec_matchup_table(recs, n)[g][j]).2 >= 1,
{
    lemma_stats_table_shape(recs, n);
    lemma_matchup_table_shape(recs, n);
}

/// Bucket range: the per-generation grouping always has one entry per
/// generation, and the media series and both tables always have one
/// entry per grade level.
pub proof fn lemma_bucket_range(recs: Seq<PokemonView>, n: int)
    requires
        1 <= n,
    ensures
        spec_analysis(recs, n).gen_average.len() == GEN_COUNT,
        spec_analysis(recs, n).manga_average.len() == n,
        spec_analysis(recs, n).anime_average.len() == n,
        spec_analysis(recs, n).stats_data.len() == n,
        spec_analysis(recs, n).matchup_data.len() == n,
{
    lemma_stats_table_len(recs, n);
    lemma_matchup_table_shape(recs, n);
}

} // verus!
