//! The aggregation engine: one forward scan over the record list fills
//! every grouped accumulator, and the finalizer turns them into the
//! report. The single entry point is [`run_analysis`]; its contract pins
//! the whole report to [`crate::model::spec_analysis`].
use vstd::prelude::*;
use vstd::string::StringExecFns;

use crate::average::Average;
use crate::average::Mark;
use crate::average::mark_extremes;
use crate::data::COLOR_COUNT;
use crate::data::GEN_COUNT;
use crate::data::NEUTRAL_MULTIPLIER;
use crate::data::PColors;
use crate::data::PTypes;
use crate::data::StatNames;
use crate::data::TYPING_COUNT;
use crate::data::color_index;
use crate::data::color_of_index;
use crate::data::lemma_color_of_index;
use crate::data::lemma_type_of_index;
use crate::data::spec_color_of;
use crate::data::spec_stat_index;
use crate::data::spec_type_of;
use crate::data::stat_index;
use crate::data::stat_of_index;
use crate::data::type_index;
use crate::data::type_of_index;
use crate::digits::append_pad4;
use crate::digits::spec_pad4;
use crate::model::AnalysisView;
use crate::model::anime_total_fn;
use crate::model::bucket_count_fn;
use crate::model::color_count_fn;
use crate::model::color_pairs;
use crate::model::color_total_fn;
use crate::model::dual_count_fn;
use crate::model::dual_total_fn;
use crate::model::explicit_mult;
use crate::model::finalize_matchups;
use crate::model::finalize_stats;
use crate::model::gen_count_fn;
use crate::model::gen_total_fn;
use crate::model::lemma_explicit_mult_at;
use crate::model::lemma_explicit_mult_none;
use crate::model::lemma_matchup_upd_entry;
use crate::model::lemma_stat_index_injective;
use crate::model::lemma_stats_explicit_none;
use crate::model::lemma_stats_upd_entry;
use crate::model::manga_total_fn;
use crate::model::marked_series;
use crate::model::matchup_bucket_upd;
use crate::model::matchup_step;
use crate::model::matchup_step_fn;
use crate::model::mult_of;
use crate::model::scores_step_fn;
use crate::model::single_count_fn;
use crate::model::single_total_fn;
use crate::model::spec_analysis;
use crate::model::spec_anime_series;
use crate::model::spec_gen_average;
use crate::model::spec_manga_series;
use crate::model::spec_matchup_table;
use crate::model::spec_scores;
use crate::model::spec_stats_table;
use crate::model::spec_tag;
use crate::model::stats_bucket_upd;
use crate::model::stats_step;
use crate::model::stats_step_fn;
use crate::model::typ_count_fn;
use crate::model::typ_total_fn;
use crate::model::typing_pairs;
use crate::model::valid_records;
use crate::pokemon::Pokemon;
use crate::pokemon::PokemonView;
use crate::pokemon::bucket_of;
use crate::pokemon::is_graded;
use crate::ranking::sort_pairs;
use crate::sums::lemma_fold_left_take_succ;
use crate::sums::lemma_sum_by_take_succ;
use crate::sums::sum_by;
use crate::table::AvgValuePerGrade;
use crate::table::bucket_entry;
use crate::table::bucket_wf;
use crate::table::lemma_find_key_props;

verus! {

/// The most records one analysis run accepts; keeps every 64-bit
/// accumulator away from overflow.
pub const MAX_ANALYZE_RECORDS: usize = 0x4000_0000;

/// Magnitude bound on any single contribution to an accumulator: grade
/// buckets and stat values fit in 32 signed bits, media counts in 32
/// unsigned bits.
pub const CONTRIB_LIMIT: i64 = 0x1_0000_0000;

/// The finalized report of one analysis run. Every average is the exact
/// rational `(total, count)`; the media series carry their extremal
/// marks; the ranked groupings are sorted descending. Extremal marking
/// applies to the two media series only: the stats and matchup tables
/// hold plain per-key averages.
#[derive(Debug, PartialEq)]
pub struct AnalysisOutput {
    /// Tags of records in the highest grade bucket, in input order.
    pub perfect_scores: Vec<String>,
    /// Tags of records in the lowest grade bucket, in input order.
    pub worst_scores: Vec<String>,
    /// One average grade bucket per generation.
    pub gen_average: Vec<Average>,
    /// Average grade bucket per present type, sorted descending.
    pub typing_average: Vec<(PTypes, Average)>,
    /// Average grade bucket per present color, sorted descending.
    pub color_average: Vec<(PColors, Average)>,
    /// Average grade bucket of dual-typed records.
    pub dual_type_average: Average,
    /// Average grade bucket of single-typed records.
    pub single_type_average: Average,
    /// Average manga appearances per grade bucket, extremal-marked.
    pub manga_average: Vec<(Average, Mark)>,
    /// Average anime appearances per grade bucket, extremal-marked.
    pub anime_average: Vec<(Average, Mark)>,
    /// Per-bucket average stat values, keyed by stat name.
    pub stats_data: Vec<Vec<(StatNames, Average)>>,
    /// Per-bucket average effectiveness multiplier, keyed by type.
    pub matchup_data: Vec<Vec<(PTypes, Average)>>,
}

impl View for AnalysisOutput {
    type V = AnalysisView;

    open spec fn view(&self) -> AnalysisView {
        AnalysisView {
            perfect_scores: self.perfect_scores.deep_view(),
            worst_scores: self.worst_scores.deep_view(),
            gen_average: self.gen_average@,
            typing_average: self.typing_average@,
            color_average: self.color_average@,
            dual_type_average: self.dual_type_average,
            single_type_average: self.single_type_average,
            manga_average: self.manga_average@,
            anime_average: self.anime_average@,
            stats_data: self.stats_data@.map_values(|v: Vec<(StatNames, Average)>| v@),
            matchup_data: self.matchup_data@.map_values(|v: Vec<(PTypes, Average)>| v@),
        }
    }
}

/// The text an extremal list records: `name (dex, zero-padded to 4)`.
fn format_tag(name: &String, dex: usize) -> (s: String)
    ensures
        s@ == name@ + " ("@ + spec_pad4(dex as int) + ")"@,
{
    let mut s = String::from_str(name.as_str());
    s.append(" (");
    append_pad4(&mut s, dex as u64);
    s.append(")");
    s
}

/// The dense multiplier of a sparse matchup list against `t`: the first
/// listed value, or neutral when unlisted.
fn find_mult(matchups: &Vec<(i32, Vec<PTypes>)>, t: PTypes) -> (m: i32)
    ensures
        ({
            let mv = matchups@.map_values(|e: (i32, Vec<PTypes>)| (e.0, e.1@));
            m as int == match explicit_mult(mv, t) {
                Some(v) => v as int,
                None => NEUTRAL_MULTIPLIER as int,
            }
        }),
{
    let ghost mv = matchups@.map_values(|e: (i32, Vec<PTypes>)| (e.0, e.1@));
    let mut j: usize = 0;
    while j < matchups.len()
        invariant
            j <= mv.len(),
            mv.len() == matchups@.len(),
            mv == matchups@.map_values(|e: (i32, Vec<PTypes>)| (e.0, e.1@)),
            forall|jj: int| 0 <= jj < j ==> !(#[trigger] mv[jj]).1.contains(t),
        decreases mv.len() - j,
    {
        let entry = &matchups[j];
        proof {
            assert(mv[j as int] == (entry.0, entry.1@));
        }
        let mut l: usize = 0;
        while l < entry.1.len() && entry.1[l] != t
            invariant
                l <= entry.1@.len(),
                forall|ll: int| 0 <= ll < l ==> entry.1@[ll] != t,
            decreases entry.1@.len() - l,
        {
            l = l + 1;
        }
        if l < entry.1.len() {
            proof {
                assert(entry.1@[l as int] == t);
                assert(mv[j as int].1.contains(t));
                lemma_explicit_mult_at(mv, t, j as int);
            }
            return entry.0;
        }
        proof {
            assert(forall|ll: int| 0 <= ll < entry.1@.len() ==> entry.1@[ll] != t);
            assert(!mv[j as int].1.contains(t));
        }
        j = j + 1;
    }
    proof {
        lemma_explicit_mult_none(mv, t);
    }
    NEUTRAL_MULTIPLIER
}

/// One graded record's stat entries applied to its grade bucket.
#[verifier::loop_isolation(false)]
#[verifier::rlimit(60)]
fn apply_stats_record(
    st: &mut AvgValuePerGrade,
    stats: &Vec<(StatNames, i32)>,
    b: usize,
    Ghost(m): Ghost<int>,
)
    requires
        b < old(st)@.len(),
        0 <= m < MAX_ANALYZE_RECORDS,
        forall|i: int, j: int|
            0 <= i < j < stats@.len() ==> (#[trigger] stats@[i]).0 != (#[trigger] stats@[j]).0,
        forall|g: int| 0 <= g < old(st)@.len() ==> bucket_wf(#[trigger] old(st)@[g]),
        forall|g: int, q: int|
            0 <= g < old(st)@.len() ==> {
                &&& (#[trigger] bucket_entry(old(st)@[g], q)).1 <= m
                &&& -m * CONTRIB_LIMIT <= bucket_entry(old(st)@[g], q).0 <= m * CONTRIB_LIMIT
            },
    ensures
        final(st)@ == old(st)@.update(b as int, stats_bucket_upd(old(st)@[b as int], stats@)),
{
    let ghost tv0 = old(st)@;
    let ghost b0 = old(st)@[b as int];
    proof {
        assert(stats@.take(0) =~= Seq::<(StatNames, i32)>::empty());
        assert(stats_bucket_upd(b0, stats@.take(0)) == b0);
        assert(tv0.update(b as int, b0) =~= tv0);
    }
    let mut j: usize = 0;
    while j < stats.len()
        invariant
            j <= stats@.len(),
            st@ == tv0.update(b as int, stats_bucket_upd(b0, stats@.take(j as int))),
        decreases stats@.len() - j,
    {
        let e = stats[j];
        let k = stat_index(e.0);
        proof {
            let pre = stats@.take(j as int);
            let cur = stats_bucket_upd(b0, pre);
            lemma_stats_upd_entry(b0, pre);
            assert forall|ll: int| 0 <= ll < pre.len() implies spec_stat_index(
                (#[trigger] pre[ll]).0,
            ) != k as int by {
                assert(pre[ll] == stats@[ll]);
                lemma_stat_index_injective(stats@[ll].0, e.0);
            }
            lemma_stats_explicit_none(pre, k as int);
            assert(bucket_entry(cur, k as int) == bucket_entry(b0, k as int));
            lemma_find_key_props(cur, k as int);
            assert(st@[b as int] == cur);
        }
        st.add_value(b, k, e.1 as i64);
        proof {
            assert(stats@.take(j + 1).drop_last() =~= stats@.take(j as int));
            assert(stats@.take(j + 1).last() == stats@[j as int]);
            assert(st@ =~= tv0.update(b as int, stats_bucket_upd(b0, stats@.take(j + 1))));
        }
        j = j + 1;
    }
    proof {
        assert(stats@.take(stats@.len() as int) =~= stats@);
    }
}

/// One graded record's matchup contributions, one per type (explicit or
/// neutral), applied to its grade bucket.
#[verifier::loop_isolation(false)]
#[verifier::rlimit(60)]
fn apply_matchup_record(mt: &mut AvgValuePerGrade, p: &Pokemon, b: usize, Ghost(m): Ghost<int>)
    requires
        b < old(mt)@.len(),
        0 <= m < MAX_ANALYZE_RECORDS,
        forall|g: int| 0 <= g < old(mt)@.len() ==> bucket_wf(#[trigger] old(mt)@[g]),
        forall|g: int, q: int|
            0 <= g < old(mt)@.len() ==> {
                &&& (#[trigger] bucket_entry(old(mt)@[g], q)).1 <= m
                &&& -m * CONTRIB_LIMIT <= bucket_entry(old(mt)@[g], q).0 <= m * CONTRIB_LIMIT
            },
    ensures
        final(mt)@ == old(mt)@.update(
            b as int,
            matchup_bucket_upd(old(mt)@[b as int], p@, TYPING_COUNT as int),
        ),
{
    let ghost tv0 = old(mt)@;
    let ghost b0 = old(mt)@[b as int];
    proof {
        assert(matchup_bucket_upd(b0, p@, 0) == b0);
        assert(tv0.update(b as int, b0) =~= tv0);
    }
    let mut ti: usize = 0;
    while ti < TYPING_COUNT
        invariant
            ti <= TYPING_COUNT,
            mt@ == tv0.update(b as int, matchup_bucket_upd(b0, p@, ti as int)),
        decreases TYPING_COUNT - ti,
    {
        let t = type_of_index(ti);
        let v = find_mult(&p.matchups, t);
        proof {
            assert(p@.matchups == p.matchups@.map_values(|e: (i32, Vec<PTypes>)| (e.0, e.1@)));
            assert(v as int == mult_of(p@, t));
            let cur = matchup_bucket_upd(b0, p@, ti as int);
            lemma_matchup_upd_entry(b0, p@, ti as int);
            assert(bucket_entry(cur, ti as int) == bucket_entry(b0, ti as int));
            lemma_find_key_props(cur, ti as int);
            assert(mt@[b as int] == cur);
        }
        mt.add_value(b, ti, v as i64);
        proof {
            assert(mt@ =~= tv0.update(b as int, matchup_bucket_upd(b0, p@, ti + 1)));
        }
        ti = ti + 1;
    }
}

/// One graded record's tag pushed onto whichever extremal list its
/// bucket selects; both lists when there is only one grade level.
#[verifier::loop_isolation(false)]
#[verifier::rlimit(60)]
fn step_names(
    perfect: &mut Vec<String>,
    worst: &mut Vec<String>,
    p: &Pokemon,
    b_us: usize,
    n_us: usize,
    Ghost(recs): Ghost<Seq<PokemonView>>,
    Ghost(i): Ghost<int>,
    Ghost(n): Ghost<int>,
)
    requires
        0 <= i < recs.len(),
        recs[i] == p@,
        n == n_us as int,
        n >= 1,
        is_graded(recs[i]),
        bucket_of(recs[i]) == b_us as int,
        b_us < n_us,
        old(perfect).deep_view() == spec_scores(recs.take(i), n - 1),
        old(worst).deep_view() == spec_scores(recs.take(i), 0),
    ensures
        final(perfect).deep_view() == spec_scores(recs.take(i + 1), n - 1),
        final(worst).deep_view() == spec_scores(recs.take(i + 1), 0),
{
    let ghost r = recs[i];
    proof {
        assert(recs.take(i + 1).drop_last() =~= recs.take(i));
        assert(recs.take(i + 1).last() == r);
        lemma_fold_left_take_succ(recs, Seq::<Seq<char>>::empty(), scores_step_fn(n - 1), i);
        lemma_fold_left_take_succ(recs, Seq::<Seq<char>>::empty(), scores_step_fn(0), i);
    }
    if b_us == n_us - 1 {
        let tag = format_tag(&p.name, p.dex_no);
        proof {
            assert(tag@ == spec_tag(r));
        }
        let ghost pv = perfect.deep_view();
        perfect.push(tag);
        proof {
            assert(perfect.deep_view() =~= pv.push(tag@));
        }
    } else {
        proof {
            assert(bucket_of(r) != n - 1);
        }
    }
    if b_us == 0 {
        let tag = format_tag(&p.name, p.dex_no);
        proof {
            assert(tag@ == spec_tag(r));
        }
        let ghost wv = worst.deep_view();
        worst.push(tag);
        proof {
            assert(worst.deep_view() =~= wv.push(tag@));
        }
    }
}

/// One graded record added to its generation's accumulator.
#[verifier::loop_isolation(false)]
#[verifier::rlimit(60)]
fn step_gen(
    totals: &mut Vec<i64>,
    counts: &mut Vec<u64>,
    p: &Pokemon,
    b: i64,
    Ghost(recs): Ghost<Seq<PokemonView>>,
    Ghost(i): Ghost<int>,
)
    requires
        0 <= i < recs.len(),
        i < MAX_ANALYZE_RECORDS,
        recs[i] == p@,
        is_graded(recs[i]),
        b as int == bucket_of(recs[i]),
        0 <= b < CONTRIB_LIMIT,
        1 <= p@.gen_no <= GEN_COUNT,
        old(totals)@.len() == GEN_COUNT,
        old(counts)@.len() == GEN_COUNT,
        forall|g: int|
            0 <= g < GEN_COUNT ==> (#[trigger] old(totals)@[g]) as int == sum_by(
                recs.take(i),
                gen_total_fn(g),
            ),
        forall|g: int|
            0 <= g < GEN_COUNT ==> (#[trigger] old(counts)@[g]) as int == sum_by(
                recs.take(i),
                gen_count_fn(g),
            ),
        forall|g: int|
            0 <= g < GEN_COUNT ==> -i * CONTRIB_LIMIT <= (#[trigger] old(totals)@[g]) <= i
                * CONTRIB_LIMIT,
        forall|g: int| 0 <= g < GEN_COUNT ==> (#[trigger] old(counts)@[g]) <= i,
    ensures
        final(totals)@.len() == GEN_COUNT,
        final(counts)@.len() == GEN_COUNT,
        forall|g: int|
            0 <= g < GEN_COUNT ==> (#[trigger] final(totals)@[g]) as int == sum_by(
                recs.take(i + 1),
                gen_total_fn(g),
            ),
        forall|g: int|
            0 <= g < GEN_COUNT ==> (#[trigger] final(counts)@[g]) as int == sum_by(
                recs.take(i + 1),
                gen_count_fn(g),
            ),
        forall|g: int|
            0 <= g < GEN_COUNT ==> -(i + 1) * CONTRIB_LIMIT <= (#[trigger] final(totals)@[g]) <= (i
                + 1) * CONTRIB_LIMIT,
        forall|g: int| 0 <= g < GEN_COUNT ==> (#[trigger] final(counts)@[g]) <= i + 1,
{
    let ghost r = recs[i];
    proof {
        assert(recs.take(i + 1).drop_last() =~= recs.take(i));
        assert(recs.take(i + 1).last() == r);
        assert forall|g: int| 0 <= g < GEN_COUNT implies #[trigger] sum_by(
            recs.take(i + 1),
            gen_total_fn(g),
        ) == sum_by(recs.take(i), gen_total_fn(g)) + gen_total_fn(g)(r) && #[trigger] sum_by(
            recs.take(i + 1),
            gen_count_fn(g),
        ) == sum_by(recs.take(i), gen_count_fn(g)) + gen_count_fn(g)(r) by {
            lemma_sum_by_take_succ(recs, gen_total_fn(g), i);
            lemma_sum_by_take_succ(recs, gen_count_fn(g), i);
        }
    }
    let gi = p.gen_no - 1;
    let xt = totals[gi];
    totals[gi] = xt + b;
    let xc = counts[gi];
    counts[gi] = xc + 1;
    proof {
        assert forall|g2: int| 0 <= g2 < GEN_COUNT implies (#[trigger] totals@[g2]) as int == sum_by(
            recs.take(i + 1),
            gen_total_fn(g2),
        ) && (#[trigger] counts@[g2]) as int == sum_by(recs.take(i + 1), gen_count_fn(g2)) by {
            if g2 == gi as int {
                assert(gen_total_fn(g2)(r) == bucket_of(r));
                assert(gen_count_fn(g2)(r) == 1);
            } else {
                assert(gen_total_fn(g2)(r) == 0);
                assert(gen_count_fn(g2)(r) == 0);
            }
        }
    }
}

/// One graded record added to the accumulator of each of its types.
#[verifier::loop_isolation(false)]
#[verifier::rlimit(60)]
fn step_typing(
    totals: &mut Vec<i64>,
    counts: &mut Vec<u64>,
    p: &Pokemon,
    b: i64,
    Ghost(recs): Ghost<Seq<PokemonView>>,
    Ghost(i): Ghost<int>,
)
    requires
        0 <= i < recs.len(),
        i < MAX_ANALYZE_RECORDS,
        recs[i] == p@,
        is_graded(recs[i]),
        b as int == bucket_of(recs[i]),
        0 <= b < CONTRIB_LIMIT,
        1 <= p@.typing.len() <= 2,
        forall|x: int, y: int| 0 <= x < y < p@.typing.len() ==> p@.typing[x] != p@.typing[y],
        old(totals)@.len() == TYPING_COUNT,
        old(counts)@.len() == TYPING_COUNT,
        forall|k: int|
            0 <= k < TYPING_COUNT ==> (#[trigger] old(totals)@[k]) as int == sum_by(
                recs.take(i),
                typ_total_fn(spec_type_of(k)),
            ),
        forall|k: int|
            0 <= k < TYPING_COUNT ==> (#[trigger] old(counts)@[k]) as int == sum_by(
                recs.take(i),
                typ_count_fn(spec_type_of(k)),
            ),
        forall|k: int|
            0 <= k < TYPING_COUNT ==> -i * CONTRIB_LIMIT <= (#[trigger] old(totals)@[k]) <= i
                * CONTRIB_LIMIT,
        forall|k: int| 0 <= k < TYPING_COUNT ==> (#[trigger] old(counts)@[k]) <= i,
    ensures
        final(totals)@.len() == TYPING_COUNT,
        final(counts)@.len() == TYPING_COUNT,
        forall|k: int|
            0 <= k < TYPING_COUNT ==> (#[trigger] final(totals)@[k]) as int == sum_by(
                recs.take(i + 1),
                typ_total_fn(spec_type_of(k)),
            ),
        forall|k: int|
            0 <= k < TYPING_COUNT ==> (#[trigger] final(counts)@[k]) as int == sum_by(
                recs.take(i + 1),
                typ_count_fn(spec_type_of(k)),
            ),
        forall|k: int|
            0 <= k < TYPING_COUNT ==> -(i + 1) * CONTRIB_LIMIT <= (#[trigger] final(totals)@[k])
                <= (i + 1) * CONTRIB_LIMIT,
        forall|k: int| 0 <= k < TYPING_COUNT ==> (#[trigger] final(counts)@[k]) <= i + 1,
{
    let ghost r = recs[i];
    proof {
        assert(recs.take(i + 1).drop_last() =~= recs.take(i));
        assert(recs.take(i + 1).last() == r);
        assert forall|k: int| 0 <= k < TYPING_COUNT implies #[trigger] sum_by(
            recs.take(i + 1),
            typ_total_fn(spec_type_of(k)),
        ) == sum_by(recs.take(i), typ_total_fn(spec_type_of(k))) + typ_total_fn(spec_type_of(k))(r)
            && #[trigger] sum_by(recs.take(i + 1), typ_count_fn(spec_type_of(k))) == sum_by(
            recs.take(i),
            typ_count_fn(spec_type_of(k)),
        ) + typ_count_fn(spec_type_of(k))(r) by {
            lemma_sum_by_take_succ(recs, typ_total_fn(spec_type_of(k)), i);
            lemma_sum_by_take_succ(recs, typ_count_fn(spec_type_of(k)), i);
        }
    }
    let t0 = p.typing[0];
    let k0 = type_index(t0);
    let yt = totals[k0];
    totals[k0] = yt + b;
    let yc = counts[k0];
    counts[k0] = yc + 1;
    let ghost two = p@.typing.len() == 2;
    let ghost k1g: int = if two {
        crate::data::spec_type_index(r.typing[1])
    } else {
        -1
    };
    if p.typing.len() == 2 {
        let t1 = p.typing[1];
        let k1 = type_index(t1);
        proof {
            assert(t0 != t1);
            if k1 == k0 {
                lemma_type_of_index(t0);
                lemma_type_of_index(t1);
                assert(false);
            }
        }
        let zt = totals[k1];
        totals[k1] = zt + b;
        let zc = counts[k1];
        counts[k1] = zc + 1;
    }
    proof {
        assert forall|k2: int| 0 <= k2 < TYPING_COUNT implies (#[trigger] totals@[k2]) as int
            == sum_by(recs.take(i + 1), typ_total_fn(spec_type_of(k2))) && (
        #[trigger] counts@[k2]) as int == sum_by(recs.take(i + 1), typ_count_fn(spec_type_of(k2)))
            && -(i + 1) * CONTRIB_LIMIT <= totals@[k2] <= (i + 1) * CONTRIB_LIMIT && counts@[k2] <= i
            + 1 by {
            let t2 = spec_type_of(k2);
            crate::data::lemma_type_index_of(k2);
            lemma_type_of_index(t0);
            if two {
                lemma_type_of_index(r.typing[1]);
            }
            if k2 == k0 as int {
                assert(r.typing[0] == t2);
                assert(r.typing.contains(t2));
            } else if two && k2 == k1g {
                assert(r.typing[1] == t2);
                assert(r.typing.contains(t2));
            } else {
                if r.typing.contains(t2) {
                    let w = choose|w: int| 0 <= w < r.typing.len() && r.typing[w] == t2;
                    assert(w == 0 || w == 1);
                    assert(false);
                }
                assert(typ_total_fn(t2)(r) == 0);
                assert(typ_count_fn(t2)(r) == 0);
            }
        }
    }
}

/// One graded record added to the accumulator of its color.
#[verifier::loop_isolation(false)]
#[verifier::rlimit(60)]
fn step_color(
    totals: &mut Vec<i64>,
    counts: &mut Vec<u64>,
    p: &Pokemon,
    b: i64,
    Ghost(recs): Ghost<Seq<PokemonView>>,
    Ghost(i): Ghost<int>,
)
    requires
        0 <= i < recs.len(),
        i < MAX_ANALYZE_RECORDS,
        recs[i] == p@,
        is_graded(recs[i]),
        b as int == bucket_of(recs[i]),
        0 <= b < CONTRIB_LIMIT,
        old(totals)@.len() == COLOR_COUNT,
        old(counts)@.len() == COLOR_COUNT,
        forall|c: int|
            0 <= c < COLOR_COUNT ==> (#[trigger] old(totals)@[c]) as int == sum_by(
                recs.take(i),
                color_total_fn(spec_color_of(c)),
            ),
        forall|c: int|
            0 <= c < COLOR_COUNT ==> (#[trigger] old(counts)@[c]) as int == sum_by(
                recs.take(i),
                color_count_fn(spec_color_of(c)),
            ),
        forall|c: int|
            0 <= c < COLOR_COUNT ==> -i * CONTRIB_LIMIT <= (#[trigger] old(totals)@[c]) <= i
                * CONTRIB_LIMIT,
        forall|c: int| 0 <= c < COLOR_COUNT ==> (#[trigger] old(counts)@[c]) <= i,
    ensures
        final(totals)@.len() == COLOR_COUNT,
        final(counts)@.len() == COLOR_COUNT,
        forall|c: int|
            0 <= c < COLOR_COUNT ==> (#[trigger] final(totals)@[c]) as int == sum_by(
                recs.take(i + 1),
                color_total_fn(spec_color_of(c)),
            ),
        forall|c: int|
            0 <= c < COLOR_COUNT ==> (#[trigger] final(counts)@[c]) as int == sum_by(
                recs.take(i + 1),
                color_count_fn(spec_color_of(c)),
            ),
        forall|c: int|
            0 <= c < COLOR_COUNT ==> -(i + 1) * CONTRIB_LIMIT <= (#[trigger] final(totals)@[c])
                <= (i + 1) * CONTRIB_LIMIT,
        forall|c: int| 0 <= c < COLOR_COUNT ==> (#[trigger] final(counts)@[c]) <= i + 1,
{
    let ghost r = recs[i];
    proof {
        assert(recs.take(i + 1).drop_last() =~= recs.take(i));
        assert(recs.take(i + 1).last() == r);
        assert forall|c: int| 0 <= c < COLOR_COUNT implies #[trigger] sum_by(
            recs.take(i + 1),
            color_total_fn(spec_color_of(c)),
        ) == sum_by(recs.take(i), color_total_fn(spec_color_of(c))) + color_total_fn(
            spec_color_of(c),
        )(r) && #[trigger] sum_by(recs.take(i + 1), color_count_fn(spec_color_of(c))) == sum_by(
            recs.take(i),
            color_count_fn(spec_color_of(c)),
        ) + color_count_fn(spec_color_of(c))(r) by {
            lemma_sum_by_take_succ(recs, color_total_fn(spec_color_of(c)), i);
            lemma_sum_by_take_succ(recs, color_count_fn(spec_color_of(c)), i);
        }
    }
    let ci = color_index(p.color);
    let ct = totals[ci];
    totals[ci] = ct + b;
    let cc = counts[ci];
    counts[ci] = cc + 1;
    proof {
        assert forall|c2: int| 0 <= c2 < COLOR_COUNT implies (#[trigger] totals@[c2]) as int
            == sum_by(recs.take(i + 1), color_total_fn(spec_color_of(c2))) && (
        #[trigger] counts@[c2]) as int == sum_by(
            recs.take(i + 1),
            color_count_fn(spec_color_of(c2)),
        ) by {
            crate::data::lemma_color_index_of(c2);
            lemma_color_of_index(r.color);
            if c2 == ci as int {
                assert(spec_color_of(c2) == r.color);
            } else {
                assert(spec_color_of(c2) != r.color);
                assert(color_total_fn(spec_color_of(c2))(r) == 0);
                assert(color_count_fn(spec_color_of(c2))(r) == 0);
            }
        }
    }
}

/// One graded record added to its bucket's media accumulators.
#[verifier::loop_isolation(false)]
#[verifier::rlimit(60)]
fn step_media(
    manga_totals: &mut Vec<i64>,
    anime_totals: &mut Vec<i64>,
    bucket_counts: &mut Vec<u64>,
    p: &Pokemon,
    b_us: usize,
    Ghost(recs): Ghost<Seq<PokemonView>>,
    Ghost(i): Ghost<int>,
    Ghost(n): Ghost<int>,
)
    requires
        0 <= i < recs.len(),
        i < MAX_ANALYZE_RECORDS,
        recs[i] == p@,
        is_graded(recs[i]),
        bucket_of(recs[i]) == b_us as int,
        (b_us as int) < n,
        old(manga_totals)@.len() == n,
        old(anime_totals)@.len() == n,
        old(bucket_counts)@.len() == n,
        forall|b: int|
            0 <= b < n ==> (#[trigger] old(manga_totals)@[b]) as int == sum_by(
                recs.take(i),
                manga_total_fn(b),
            ),
        forall|b: int|
            0 <= b < n ==> (#[trigger] old(anime_totals)@[b]) as int == sum_by(
                recs.take(i),
                anime_total_fn(b),
            ),
        forall|b: int|
            0 <= b < n ==> (#[trigger] old(bucket_counts)@[b]) as int == sum_by(
                recs.take(i),
                bucket_count_fn(b),
            ),
        forall|b: int|
            0 <= b < n ==> -i * CONTRIB_LIMIT <= (#[trigger] old(manga_totals)@[b]) <= i
                * CONTRIB_LIMIT,
        forall|b: int|
            0 <= b < n ==> -i * CONTRIB_LIMIT <= (#[trigger] old(anime_totals)@[b]) <= i
                * CONTRIB_LIMIT,
        forall|b: int| 0 <= b < n ==> (#[trigger] old(bucket_counts)@[b]) <= i,
    ensures
        final(manga_totals)@.len() == n,
        final(anime_totals)@.len() == n,
        final(bucket_counts)@.len() == n,
        forall|b: int|
            0 <= b < n ==> (#[trigger] final(manga_totals)@[b]) as int == sum_by(
                recs.take(i + 1),
                manga_total_fn(b),
            ),
        forall|b: int|
            0 <= b < n ==> (#[trigger] final(anime_totals)@[b]) as int == sum_by(
                recs.take(i + 1),
                anime_total_fn(b),
            ),
        forall|b: int|
            0 <= b < n ==> (#[trigger] final(bucket_counts)@[b]) as int == sum_by(
                recs.take(i + 1),
                bucket_count_fn(b),
            ),
        forall|b: int|
            0 <= b < n ==> -(i + 1) * CONTRIB_LIMIT <= (#[trigger] final(manga_totals)@[b]) <= (i
                + 1) * CONTRIB_LIMIT,
        forall|b: int|
            0 <= b < n ==> -(i + 1) * CONTRIB_LIMIT <= (#[trigger] final(anime_totals)@[b]) <= (i
                + 1) * CONTRIB_LIMIT,
        forall|b: int| 0 <= b < n ==> (#[trigger] final(bucket_counts)@[b]) <= i + 1,
{
    let ghost r = recs[i];
    proof {
        assert(recs.take(i + 1).drop_last() =~= recs.take(i));
        assert(recs.take(i + 1).last() == r);
        assert forall|b: int| 0 <= b < n implies #[trigger] sum_by(
            recs.take(i + 1),
            manga_total_fn(b),
        ) == sum_by(recs.take(i), manga_total_fn(b)) + manga_total_fn(b)(r) && #[trigger] sum_by(
            recs.take(i + 1),
            anime_total_fn(b),
        ) == sum_by(recs.take(i), anime_total_fn(b)) + anime_total_fn(b)(r) && #[trigger] sum_by(
            recs.take(i + 1),
            bucket_count_fn(b),
        ) == sum_by(recs.take(i), bucket_count_fn(b)) + bucket_count_fn(b)(r) by {
            lemma_sum_by_take_succ(recs, manga_total_fn(b), i);
            lemma_sum_by_take_succ(recs, anime_total_fn(b), i);
            lemma_sum_by_take_succ(recs, bucket_count_fn(b), i);
        }
    }
    let mt = manga_totals[b_us];
    manga_totals[b_us] = mt + (p.manga_count as i64);
    let at = anime_totals[b_us];
    anime_totals[b_us] = at + (p.anime_count as i64);
    let bc = bucket_counts[b_us];
    bucket_counts[b_us] = bc + 1;
    proof {
        assert forall|b2: int| 0 <= b2 < n implies (#[trigger] manga_totals@[b2]) as int == sum_by(
            recs.take(i + 1),
            manga_total_fn(b2),
        ) && (#[trigger] anime_totals@[b2]) as int == sum_by(recs.take(i + 1), anime_total_fn(b2))
            && (#[trigger] bucket_counts@[b2]) as int == sum_by(
            recs.take(i + 1),
            bucket_count_fn(b2),
        ) by {
            if b2 == b_us as int {
                assert(manga_total_fn(b2)(r) == r.manga_count);
                assert(anime_total_fn(b2)(r) == r.anime_count);
                assert(bucket_count_fn(b2)(r) == 1);
            } else {
                assert(manga_total_fn(b2)(r) == 0);
                assert(anime_total_fn(b2)(r) == 0);
                assert(bucket_count_fn(b2)(r) == 0);
            }
        }
    }
}

/// One graded record's stat entries applied to the stats table, with the
/// table invariants carried forward.
#[verifier::loop_isolation(false)]
#[verifier::rlimit(60)]
fn step_stats(
    st: &mut AvgValuePerGrade,
    p: &Pokemon,
    b_us: usize,
    Ghost(recs): Ghost<Seq<PokemonView>>,
    Ghost(i): Ghost<int>,
    Ghost(n): Ghost<int>,
)
    requires
        0 <= i < recs.len(),
        i < MAX_ANALYZE_RECORDS,
        recs[i] == p@,
        is_graded(recs[i]),
        bucket_of(recs[i]) == b_us as int,
        (b_us as int) < n,
        forall|x: int, y: int|
            0 <= x < y < p@.stats.len() ==> (#[trigger] p@.stats[x]).0 != (#[trigger] p@.stats[y]).0,
        old(st)@.len() == n,
        old(st)@ == spec_stats_table(recs.take(i), n),
        forall|g: int| 0 <= g < n ==> bucket_wf(#[trigger] old(st)@[g]),
        forall|g: int, q: int|
            0 <= g < n ==> {
                &&& (#[trigger] bucket_entry(old(st)@[g], q)).1 <= i
                &&& -i * CONTRIB_LIMIT <= bucket_entry(old(st)@[g], q).0 <= i * CONTRIB_LIMIT
            },
        forall|g: int, jj: int|
            0 <= g < n && 0 <= jj < old(st)@[g].len() ==> 0 <= (#[trigger] old(st)@[g][jj]).0 < 6,
    ensures
        final(st)@.len() == n,
        final(st)@ == spec_stats_table(recs.take(i + 1), n),
        forall|g: int| 0 <= g < n ==> bucket_wf(#[trigger] final(st)@[g]),
        forall|g: int, q: int|
            0 <= g < n ==> {
                &&& (#[trigger] bucket_entry(final(st)@[g], q)).1 <= i + 1
                &&& -(i + 1) * CONTRIB_LIMIT <= bucket_entry(final(st)@[g], q).0 <= (i + 1)
                    * CONTRIB_LIMIT
            },
        forall|g: int, jj: int|
            0 <= g < n && 0 <= jj < final(st)@[g].len() ==> 0 <= (#[trigger] final(st)@[g][jj]).0
                < 6,
{
    let ghost r = recs[i];
    let ghost st_prev = st@;
    apply_stats_record(st, &p.stats, b_us, Ghost(i));
    proof {
        assert(recs.take(i + 1).drop_last() =~= recs.take(i));
        assert(recs.take(i + 1).last() == r);
        lemma_fold_left_take_succ(recs, crate::table::empty_table(n), stats_step_fn(), i);
        assert(r.stats == p.stats@);
        assert(st@ == stats_step(st_prev, r));
        lemma_stats_upd_entry(st_prev[b_us as int], r.stats);
        assert forall|g2: int, q: int| 0 <= g2 < n implies {
            &&& (#[trigger] bucket_entry(st@[g2], q)).1 <= i + 1
            &&& -(i + 1) * CONTRIB_LIMIT <= bucket_entry(st@[g2], q).0 <= (i + 1) * CONTRIB_LIMIT
        } by {
            if g2 == b_us as int {
                assert(bucket_entry(st_prev[g2], q).1 <= i);
            } else {
                assert(st@[g2] == st_prev[g2]);
                assert(bucket_entry(st@[g2], q) == bucket_entry(st_prev[g2], q));
            }
        }
        assert forall|g2: int, jj: int| 0 <= g2 < n && 0 <= jj < st@[g2].len() implies 0 <= (
        #[trigger] st@[g2][jj]).0 < 6 by {
            if g2 != b_us as int {
                assert(st@[g2] == st_prev[g2]);
            }
        }
    }
}

/// One graded record's matchup contributions applied to the matchup
/// table, one per type, with the table invariants carried forward.
#[verifier::loop_isolation(false)]
#[verifier::rlimit(60)]
fn step_matchup(
    mt: &mut AvgValuePerGrade,
    p: &Pokemon,
    b_us: usize,
    Ghost(recs): Ghost<Seq<PokemonView>>,
    Ghost(i): Ghost<int>,
    Ghost(n): Ghost<int>,
)
    requires
        0 <= i < recs.len(),
        i < MAX_ANALYZE_RECORDS,
        recs[i] == p@,
        is_graded(recs[i]),
        bucket_of(recs[i]) == b_us as int,
        (b_us as int) < n,
        old(mt)@.len() == n,
        old(mt)@ == spec_matchup_table(recs.take(i), n),
        forall|g: int| 0 <= g < n ==> bucket_wf(#[trigger] old(mt)@[g]),
        forall|g: int, q: int|
            0 <= g < n ==> {
                &&& (#[trigger] bucket_entry(old(mt)@[g], q)).1 <= i
                &&& -i * CONTRIB_LIMIT <= bucket_entry(old(mt)@[g], q).0 <= i * CONTRIB_LIMIT
            },
        forall|g: int, jj: int|
            0 <= g < n && 0 <= jj < old(mt)@[g].len() ==> 0 <= (#[trigger] old(mt)@[g][jj]).0
                < TYPING_COUNT,
    ensures
        final(mt)@.len() == n,
        final(mt)@ == spec_matchup_table(recs.take(i + 1), n),
        forall|g: int| 0 <= g < n ==> bucket_wf(#[trigger] final(mt)@[g]),
        forall|g: int, q: int|
            0 <= g < n ==> {
                &&& (#[trigger] bucket_entry(final(mt)@[g], q)).1 <= i + 1
                &&& -(i + 1) * CONTRIB_LIMIT <= bucket_entry(final(mt)@[g], q).0 <= (i + 1)
                    * CONTRIB_LIMIT
            },
        forall|g: int, jj: int|
            0 <= g < n && 0 <= jj < final(mt)@[g].len() ==> 0 <= (#[trigger] final(mt)@[g][jj]).0
                < TYPING_COUNT,
{
    let ghost r = recs[i];
    let ghost mt_prev = mt@;
    apply_matchup_record(mt, p, b_us, Ghost(i));
    proof {
        assert(recs.take(i + 1).drop_last() =~= recs.take(i));
        assert(recs.take(i + 1).last() == r);
        lemma_fold_left_take_succ(recs, crate::table::empty_table(n), matchup_step_fn(), i);
        assert(mt@ == matchup_step(mt_prev, r));
        lemma_matchup_upd_entry(mt_prev[b_us as int], r, TYPING_COUNT as int);
        assert forall|g2: int, q: int| 0 <= g2 < n implies {
            &&& (#[trigger] bucket_entry(mt@[g2], q)).1 <= i + 1
            &&& -(i + 1) * CONTRIB_LIMIT <= bucket_entry(mt@[g2], q).0 <= (i + 1) * CONTRIB_LIMIT
        } by {
            if g2 == b_us as int {
                assert(bucket_entry(mt_prev[g2], q).1 <= i);
                if 0 <= q < TYPING_COUNT {
                    assert(-0x8000_0000 <= mult_of(r, spec_type_of(q)) <= 0x8000_0000);
                }
            } else {
                assert(mt@[g2] == mt_prev[g2]);
                assert(bucket_entry(mt@[g2], q) == bucket_entry(mt_prev[g2], q));
            }
        }
        assert forall|g2: int, jj: int| 0 <= g2 < n && 0 <= jj < mt@[g2].len() implies 0 <= (
        #[trigger] mt@[g2][jj]).0 < TYPING_COUNT by {
            if g2 != b_us as int {
                assert(mt@[g2] == mt_prev[g2]);
            }
        }
    }
}

/// Pairs totals with counts into one average per entry.
fn build_series(totals: &Vec<i64>, counts: &Vec<u64>) -> (r: Vec<Average>)
    requires
        totals@.len() == counts@.len(),
    ensures
        r@.len() == totals@.len(),
        forall|b: int|
            0 <= b < r@.len() ==> (#[trigger] r@[b]) == (Average {
                total: totals@[b],
                count: counts@[b],
            }),
{
    let mut r: Vec<Average> = Vec::new();
    let mut b: usize = 0;
    while b < totals.len()
        invariant
            b <= totals@.len(),
            counts@.len() == totals@.len(),
            r@.len() == b,
            forall|b2: int|
                0 <= b2 < b ==> (#[trigger] r@[b2]) == (Average {
                    total: totals@[b2],
                    count: counts@[b2],
                }),
        decreases totals@.len() - b,
    {
        r.push(Average { total: totals[b], count: counts[b] });
        b = b + 1;
    }
    r
}

/// The present types with their averages, in ordinal order.
#[verifier::loop_isolation(false)]
fn build_typing_pairs(totals: &Vec<i64>, counts: &Vec<u64>, Ghost(recs): Ghost<Seq<PokemonView>>) -> (r:
    Vec<(PTypes, Average)>)
    requires
        totals@.len() == TYPING_COUNT,
        counts@.len() == TYPING_COUNT,
        forall|k: int|
            0 <= k < TYPING_COUNT ==> (#[trigger] totals@[k]) as int == sum_by(
                recs,
                typ_total_fn(spec_type_of(k)),
            ),
        forall|k: int|
            0 <= k < TYPING_COUNT ==> (#[trigger] counts@[k]) as int == sum_by(
                recs,
                typ_count_fn(spec_type_of(k)),
            ),
    ensures
        r@ == typing_pairs(recs, TYPING_COUNT as int),
{
    let mut r: Vec<(PTypes, Average)> = Vec::new();
    let mut k: usize = 0;
    proof {
        assert(r@ =~= typing_pairs(recs, 0));
    }
    while k < TYPING_COUNT
        invariant
            k <= TYPING_COUNT,
            r@ == typing_pairs(recs, k as int),
        decreases TYPING_COUNT - k,
    {
        if counts[k] > 0 {
            r.push((type_of_index(k), Average { total: totals[k], count: counts[k] }));
        }
        proof {
            assert(r@ =~= typing_pairs(recs, k + 1));
        }
        k = k + 1;
    }
    r
}

/// The present colors with their averages, in ordinal order.
#[verifier::loop_isolation(false)]
fn build_color_pairs(totals: &Vec<i64>, counts: &Vec<u64>, Ghost(recs): Ghost<Seq<PokemonView>>) -> (r:
    Vec<(PColors, Average)>)
    requires
        totals@.len() == COLOR_COUNT,
        counts@.len() == COLOR_COUNT,
        forall|c: int|
            0 <= c < COLOR_COUNT ==> (#[trigger] totals@[c]) as int == sum_by(
                recs,
                color_total_fn(spec_color_of(c)),
            ),
        forall|c: int|
            0 <= c < COLOR_COUNT ==> (#[trigger] counts@[c]) as int == sum_by(
                recs,
                color_count_fn(spec_color_of(c)),
            ),
    ensures
        r@ == color_pairs(recs, COLOR_COUNT as int),
{
    let mut r: Vec<(PColors, Average)> = Vec::new();
    let mut c: usize = 0;
    proof {
        assert(r@ =~= color_pairs(recs, 0));
    }
    while c < COLOR_COUNT
        invariant
            c <= COLOR_COUNT,
            r@ == color_pairs(recs, c as int),
        decreases COLOR_COUNT - c,
    {
        if counts[c] > 0 {
            r.push((color_of_index(c), Average { total: totals[c], count: counts[c] }));
        }
        proof {
            assert(r@ =~= color_pairs(recs, c + 1));
        }
        c = c + 1;
    }
    r
}

/// Names the stat ordinal of every finalized table entry.
#[verifier::loop_isolation(false)]
fn convert_stats(raw: Vec<Vec<(usize, Average)>>, Ghost(tbl): Ghost<crate::table::TableView>) -> (r:
    Vec<Vec<(StatNames, Average)>>)
    requires
        raw@.len() == tbl.len(),
        forall|g: int| 0 <= g < tbl.len() ==> (#[trigger] raw@[g])@.len() == tbl[g].len(),
        forall|g: int, j: int|
            0 <= g < tbl.len() && 0 <= j < tbl[g].len() ==> {
                &&& (#[trigger] raw@[g]@[j]).0 == tbl[g][j].0
                &&& raw@[g]@[j].1.total == tbl[g][j].1
                &&& raw@[g]@[j].1.count == tbl[g][j].2
            },
        forall|g: int, j: int|
            0 <= g < tbl.len() && 0 <= j < tbl[g].len() ==> 0 <= (#[trigger] tbl[g][j]).0 < 6,
    ensures
        r@.map_values(|v: Vec<(StatNames, Average)>| v@) == finalize_stats(tbl),
{
    let mut r: Vec<Vec<(StatNames, Average)>> = Vec::new();
    let mut g: usize = 0;
    while g < raw.len()
        invariant
            g <= tbl.len(),
            raw@.len() == tbl.len(),
            r@.len() == g,
            forall|g2: int| 0 <= g2 < g ==> (#[trigger] r@[g2])@ == finalize_stats(tbl)[g2],
        decreases tbl.len() - g,
    {
        let bucket = &raw[g];
        let mut outb: Vec<(StatNames, Average)> = Vec::new();
        let mut j: usize = 0;
        while j < bucket.len()
            invariant
                j <= bucket@.len(),
                outb@.len() == j,
                g < tbl.len(),
                bucket@ == raw@[g as int]@,
                forall|j2: int|
                    0 <= j2 < j ==> (#[trigger] outb@[j2]) == finalize_stats(tbl)[g as int][j2],
            decreases bucket@.len() - j,
        {
            let e = bucket[j];
            proof {
                assert(e.0 as int == tbl[g as int][j as int].0);
            }
            outb.push((stat_of_index(e.0), e.1));
            proof {
                assert(outb@[j as int] == finalize_stats(tbl)[g as int][j as int]);
            }
            j = j + 1;
        }
        proof {
            assert(outb@ =~= finalize_stats(tbl)[g as int]);
        }
        r.push(outb);
        g = g + 1;
    }
    proof {
        assert(r@.map_values(|v: Vec<(StatNames, Average)>| v@) =~= finalize_stats(tbl));
    }
    r
}

/// Names the type ordinal of every finalized table entry.
#[verifier::loop_isolation(false)]
fn convert_matchups(raw: Vec<Vec<(usize, Average)>>, Ghost(tbl): Ghost<crate::table::TableView>) -> (r:
    Vec<Vec<(PTypes, Average)>>)
    requires
        raw@.len() == tbl.len(),
        forall|g: int| 0 <= g < tbl.len() ==> (#[trigger] raw@[g])@.len() == tbl[g].len(),
        forall|g: int, j: int|
            0 <= g < tbl.len() && 0 <= j < tbl[g].len() ==> {
                &&& (#[trigger] raw@[g]@[j]).0 == tbl[g][j].0
                &&& raw@[g]@[j].1.total == tbl[g][j].1
                &&& raw@[g]@[j].1.count == tbl[g][j].2
            },
        forall|g: int, j: int|
            0 <= g < tbl.len() && 0 <= j < tbl[g].len() ==> 0 <= (#[trigger] tbl[g][j]).0
                < TYPING_COUNT,
    ensures
        r@.map_values(|v: Vec<(PTypes, Average)>| v@) == finalize_matchups(tbl),
{
    let mut r: Vec<Vec<(PTypes, Average)>> = Vec::new();
    let mut g: usize = 0;
    while g < raw.len()
        invariant
            g <= tbl.len(),
            raw@.len() == tbl.len(),
            r@.len() == g,
            forall|g2: int| 0 <= g2 < g ==> (#[trigger] r@[g2])@ == finalize_matchups(tbl)[g2],
        decreases tbl.len() - g,
    {
        let bucket = &raw[g];
        let mut outb: Vec<(PTypes, Average)> = Vec::new();
        let mut j: usize = 0;
        while j < bucket.len()
            invariant
                j <= bucket@.len(),
                outb@.len() == j,
                g < tbl.len(),
                bucket@ == raw@[g as int]@,
                forall|j2: int|
                    0 <= j2 < j ==> (#[trigger] outb@[j2]) == finalize_matchups(tbl)[g as int][j2],
            decreases bucket@.len() - j,
        {
            let e = bucket[j];
            proof {
                assert(e.0 as int == tbl[g as int][j as int].0);
            }
            outb.push((type_of_index(e.0), e.1));
            proof {
                assert(outb@[j as int] == finalize_matchups(tbl)[g as int][j as int]);
            }
            j = j + 1;
        }
        proof {
            assert(outb@ =~= finalize_matchups(tbl)[g as int]);
        }
        r.push(outb);
        g = g + 1;
    }
    proof {
        assert(r@.map_values(|v: Vec<(PTypes, Average)>| v@) =~= finalize_matchups(tbl));
    }
    r
}

/// Every raw accumulator the single pass fills.
struct Accums {
    perfect_scores: Vec<String>,
    worst_scores: Vec<String>,
    gen_totals: Vec<i64>,
    gen_counts: Vec<u64>,
    typ_totals: Vec<i64>,
    typ_counts: Vec<u64>,
    col_totals: Vec<i64>,
    col_counts: Vec<u64>,
    single_total: i64,
    single_count: u64,
    dual_total: i64,
    dual_count: u64,
    manga_totals: Vec<i64>,
    anime_totals: Vec<i64>,
    bucket_counts: Vec<u64>,
    stats_tbl: AvgValuePerGrade,
    matchup_tbl: AvgValuePerGrade,
}

/// What the single pass guarantees of its accumulators: each one equals
/// its spec-level sum or fold over the whole record list.
spec fn scan_post(a: Accums, recs: Seq<PokemonView>, n: int) -> bool {
    &&& a.perfect_scores.deep_view() == spec_scores(recs, n - 1)
    &&& a.worst_scores.deep_view() == spec_scores(recs, 0)
    &&& a.gen_totals@.len() == GEN_COUNT
    &&& a.gen_counts@.len() == GEN_COUNT
    &&& (forall|g: int|
        0 <= g < GEN_COUNT ==> (#[trigger] a.gen_totals@[g]) as int == sum_by(
            recs,
            gen_total_fn(g),
        ))
    &&& (forall|g: int|
        0 <= g < GEN_COUNT ==> (#[trigger] a.gen_counts@[g]) as int == sum_by(
            recs,
            gen_count_fn(g),
        ))
    &&& a.typ_totals@.len() == TYPING_COUNT
    &&& a.typ_counts@.len() == TYPING_COUNT
    &&& (forall|k: int|
        0 <= k < TYPING_COUNT ==> (#[trigger] a.typ_totals@[k]) as int == sum_by(
            recs,
            typ_total_fn(spec_type_of(k)),
        ))
    &&& (forall|k: int|
        0 <= k < TYPING_COUNT ==> (#[trigger] a.typ_counts@[k]) as int == sum_by(
            recs,
            typ_count_fn(spec_type_of(k)),
        ))
    &&& a.col_totals@.len() == COLOR_COUNT
    &&& a.col_counts@.len() == COLOR_COUNT
    &&& (forall|c: int|
        0 <= c < COLOR_COUNT ==> (#[trigger] a.col_totals@[c]) as int == sum_by(
            recs,
            color_total_fn(spec_color_of(c)),
        ))
    &&& (forall|c: int|
        0 <= c < COLOR_COUNT ==> (#[trigger] a.col_counts@[c]) as int == sum_by(
            recs,
            color_count_fn(spec_color_of(c)),
        ))
    &&& a.single_total as int == sum_by(recs, single_total_fn())
    &&& a.single_count as int == sum_by(recs, single_count_fn())
    &&& a.dual_total as int == sum_by(recs, dual_total_fn())
    &&& a.dual_count as int == sum_by(recs, dual_count_fn())
    &&& a.manga_totals@.len() == n
    &&& a.anime_totals@.len() == n
    &&& a.bucket_counts@.len() == n
    &&& (forall|b: int|
        0 <= b < n ==> (#[trigger] a.manga_totals@[b]) as int == sum_by(recs, manga_total_fn(b)))
    &&& (forall|b: int|
        0 <= b < n ==> (#[trigger] a.anime_totals@[b]) as int == sum_by(recs, anime_total_fn(b)))
    &&& (forall|b: int|
        0 <= b < n ==> (#[trigger] a.bucket_counts@[b]) as int == sum_by(recs, bucket_count_fn(b)))
    &&& a.stats_tbl@.len() == n
    &&& a.stats_tbl@ == spec_stats_table(recs, n)
    &&& (forall|g: int, jj: int|
        0 <= g < n && 0 <= jj < a.stats_tbl@[g].len() ==> 0 <= (#[trigger] a.stats_tbl@[g][jj]).0
            < 6)
    &&& a.matchup_tbl@.len() == n
    &&& a.matchup_tbl@ == spec_matchup_table(recs, n)
    &&& (forall|g: int, jj: int|
        0 <= g < n && 0 <= jj < a.matchup_tbl@[g].len() ==> 0 <= (
        #[trigger] a.matchup_tbl@[g][jj]).0 < TYPING_COUNT)
}

/// The single forward scan: fills every accumulator in one pass.
#[verifier::rlimit(100)]
fn scan_records(list: &Vec<Pokemon>, num_grades: i32) -> (a: Accums)
    requires
        1 <= num_grades,
        list@.len() <= MAX_ANALYZE_RECORDS,
        valid_records(list.deep_view(), num_grades as int),
    ensures
        scan_post(a, list.deep_view(), num_grades as int),
{
    let ghost recs = list.deep_view();
    let ghost n = num_grades as int;
    let n_us: usize = num_grades as usize;

    let mut perfect_scores: Vec<String> = Vec::new();
    let mut worst_scores: Vec<String> = Vec::new();
    let mut gen_totals: Vec<i64> = vec![0i64; GEN_COUNT];
    let mut gen_counts: Vec<u64> = vec![0u64; GEN_COUNT];
    let mut typ_totals: Vec<i64> = vec![0i64; TYPING_COUNT];
    let mut typ_counts: Vec<u64> = vec![0u64; TYPING_COUNT];
    let mut col_totals: Vec<i64> = vec![0i64; COLOR_COUNT];
    let mut col_counts: Vec<u64> = vec![0u64; COLOR_COUNT];
    let mut single_total: i64 = 0;
    let mut single_count: u64 = 0;
    let mut dual_total: i64 = 0;
    let mut dual_count: u64 = 0;
    let mut manga_totals: Vec<i64> = vec![0i64; n_us];
    let mut anime_totals: Vec<i64> = vec![0i64; n_us];
    let mut bucket_counts: Vec<u64> = vec![0u64; n_us];
    let mut stats_tbl = AvgValuePerGrade::new(n_us);
    let mut matchup_tbl = AvgValuePerGrade::new(n_us);

    proof {
        assert(recs.take(0) =~= Seq::<PokemonView>::empty());
        assert(perfect_scores.deep_view() =~= spec_scores(recs.take(0), n - 1));
        assert(worst_scores.deep_view() =~= spec_scores(recs.take(0), 0));
        assert(stats_tbl@ == crate::table::empty_table(n));
        assert(matchup_tbl@ == crate::table::empty_table(n));
        assert forall|g: int, q: int| 0 <= g < n implies (#[trigger] bucket_entry(
            stats_tbl@[g],
            q,
        )) == (0int, 0int) && bucket_entry(matchup_tbl@[g], q) == (0int, 0int) by {
            assert(stats_tbl@[g].len() == 0);
            assert(matchup_tbl@[g].len() == 0);
        }
    }

    let mut i: usize = 0;
    while i < list.len()
        invariant
            recs == list.deep_view(),
            n == num_grades as int,
            n == n_us as int,
            1 <= num_grades,
            recs.len() == list@.len(),
            recs.len() <= MAX_ANALYZE_RECORDS,
            valid_records(recs, n),
            i <= recs.len(),
            perfect_scores.deep_view() == spec_scores(recs.take(i as int), n - 1),
            worst_scores.deep_view() == spec_scores(recs.take(i as int), 0),
            gen_totals@.len() == GEN_COUNT,
            gen_counts@.len() == GEN_COUNT,
            forall|g: int|
                0 <= g < GEN_COUNT ==> (#[trigger] gen_totals@[g]) as int == sum_by(
                    recs.take(i as int),
                    gen_total_fn(g),
                ),
            forall|g: int|
                0 <= g < GEN_COUNT ==> (#[trigger] gen_counts@[g]) as int == sum_by(
                    recs.take(i as int),
                    gen_count_fn(g),
                ),
            forall|g: int|
                0 <= g < GEN_COUNT ==> -(i as int) * CONTRIB_LIMIT <= (#[trigger] gen_totals@[g])
                    <= (i as int) * CONTRIB_LIMIT,
            forall|g: int| 0 <= g < GEN_COUNT ==> (#[trigger] gen_counts@[g]) <= i,
            typ_totals@.len() == TYPING_COUNT,
            typ_counts@.len() == TYPING_COUNT,
            forall|k: int|
                0 <= k < TYPING_COUNT ==> (#[trigger] typ_totals@[k]) as int == sum_by(
                    recs.take(i as int),
                    typ_total_fn(spec_type_of(k)),
                ),
            forall|k: int|
                0 <= k < TYPING_COUNT ==> (#[trigger] typ_counts@[k]) as int == sum_by(
                    recs.take(i as int),
                    typ_count_fn(spec_type_of(k)),
                ),
            forall|k: int|
                0 <= k < TYPING_COUNT ==> -(i as int) * CONTRIB_LIMIT <= (#[trigger] typ_totals@[k])
                    <= (i as int) * CONTRIB_LIMIT,
            forall|k: int| 0 <= k < TYPING_COUNT ==> (#[trigger] typ_counts@[k]) <= i,
            col_totals@.len() == COLOR_COUNT,
            col_counts@.len() == COLOR_COUNT,
            forall|c: int|
                0 <= c < COLOR_COUNT ==> (#[trigger] col_totals@[c]) as int == sum_by(
                    recs.take(i as int),
                    color_total_fn(spec_color_of(c)),
                ),
            forall|c: int|
                0 <= c < COLOR_COUNT ==> (#[trigger] col_counts@[c]) as int == sum_by(
                    recs.take(i as int),
                    color_count_fn(spec_color_of(c)),
                ),
            forall|c: int|
                0 <= c < COLOR_COUNT ==> -(i as int) * CONTRIB_LIMIT <= (#[trigger] col_totals@[c])
                    <= (i as int) * CONTRIB_LIMIT,
            forall|c: int| 0 <= c < COLOR_COUNT ==> (#[trigger] col_counts@[c]) <= i,
            single_total as int == sum_by(recs.take(i as int), single_total_fn()),
            single_count as int == sum_by(recs.take(i as int), single_count_fn()),
            dual_total as int == sum_by(recs.take(i as int), dual_total_fn()),
            dual_count as int == sum_by(recs.take(i as int), dual_count_fn()),
            -(i as int) * CONTRIB_LIMIT <= single_total <= (i as int) * CONTRIB_LIMIT,
            single_count <= i,
            -(i as int) * CONTRIB_LIMIT <= dual_total <= (i as int) * CONTRIB_LIMIT,
            dual_count <= i,
            manga_totals@.len() == n_us,
            anime_totals@.len() == n_us,
            bucket_counts@.len() == n_us,
            forall|b: int|
                0 <= b < n ==> (#[trigger] manga_totals@[b]) as int == sum_by(
                    recs.take(i as int),
                    manga_total_fn(b),
                ),
            forall|b: int|
                0 <= b < n ==> (#[trigger] anime_totals@[b]) as int == sum_by(
                    recs.take(i as int),
                    anime_total_fn(b),
                ),
            forall|b: int|
                0 <= b < n ==> (#[trigger] bucket_counts@[b]) as int == sum_by(
                    recs.take(i as int),
                    bucket_count_fn(b),
                ),
            forall|b: int|
                0 <= b < n ==> -(i as int) * CONTRIB_LIMIT <= (#[trigger] manga_totals@[b]) <= (
                i as int) * CONTRIB_LIMIT,
            forall|b: int|
                0 <= b < n ==> -(i as int) * CONTRIB_LIMIT <= (#[trigger] anime_totals@[b]) <= (
                i as int) * CONTRIB_LIMIT,
            forall|b: int| 0 <= b < n ==> (#[trigger] bucket_counts@[b]) <= i,
            stats_tbl@.len() == n,
            stats_tbl@ == spec_stats_table(recs.take(i as int), n),
            forall|g: int| 0 <= g < n ==> bucket_wf(#[trigger] stats_tbl@[g]),
            forall|g: int, q: int|
                0 <= g < n ==> {
                    &&& (#[trigger] bucket_entry(stats_tbl@[g], q)).1 <= i
                    &&& -(i as int) * CONTRIB_LIMIT <= bucket_entry(stats_tbl@[g], q).0 <= (
                    i as int) * CONTRIB_LIMIT
                },
            forall|g: int, jj: int|
                0 <= g < n && 0 <= jj < stats_tbl@[g].len() ==> 0 <= (
                #[trigger] stats_tbl@[g][jj]).0 < 6,
            matchup_tbl@.len() == n,
            matchup_tbl@ == spec_matchup_table(recs.take(i as int), n),
            forall|g: int| 0 <= g < n ==> bucket_wf(#[trigger] matchup_tbl@[g]),
            forall|g: int, q: int|
                0 <= g < n ==> {
                    &&& (#[trigger] bucket_entry(matchup_tbl@[g], q)).1 <= i
                    &&& -(i as int) * CONTRIB_LIMIT <= bucket_entry(matchup_tbl@[g], q).0 <= (
                    i as int) * CONTRIB_LIMIT
                },
            forall|g: int, jj: int|
                0 <= g < n && 0 <= jj < matchup_tbl@[g].len() ==> 0 <= (
                #[trigger] matchup_tbl@[g][jj]).0 < TYPING_COUNT,
        decreases recs.len() - i,
    {
        let p = &list[i];
        proof {
            assert(recs[i as int] == list@[i as int]@);
            assert(crate::pokemon::valid_record(recs[i as int], n));
        }
        if let Some(g) = p.grade {
            proof {
                assert(is_graded(recs[i as int]));
                assert(1 <= g <= num_grades);
                assert(bucket_of(recs[i as int]) == g - 1);
            }
            let b_us: usize = (g - 1) as usize;
            let b_i64: i64 = (g - 1) as i64;
            proof {
                assert(bucket_of(recs[i as int]) == b_us as int);
                assert(b_us < n_us);
                assert(0 <= b_i64 < CONTRIB_LIMIT);
            }
            step_names(
                &mut perfect_scores,
                &mut worst_scores,
                p,
                b_us,
                n_us,
                Ghost(recs),
                Ghost(i as int),
                Ghost(n),
            );
            step_gen(&mut gen_totals, &mut gen_counts, p, b_i64, Ghost(recs), Ghost(i as int));
            step_typing(&mut typ_totals, &mut typ_counts, p, b_i64, Ghost(recs), Ghost(i as int));
            step_color(&mut col_totals, &mut col_counts, p, b_i64, Ghost(recs), Ghost(i as int));
            // Single/dual split.
            proof {
                lemma_sum_by_take_succ(recs, single_total_fn(), i as int);
                lemma_sum_by_take_succ(recs, single_count_fn(), i as int);
                lemma_sum_by_take_succ(recs, dual_total_fn(), i as int);
                lemma_sum_by_take_succ(recs, dual_count_fn(), i as int);
            }
            if p.typing.len() == 1 {
                single_total = single_total + b_i64;
                single_count = single_count + 1;
                proof {
                    assert(single_total_fn()(recs[i as int]) == bucket_of(recs[i as int]));
                    assert(dual_total_fn()(recs[i as int]) == 0);
                }
            } else {
                dual_total = dual_total + b_i64;
                dual_count = dual_count + 1;
                proof {
                    assert(single_total_fn()(recs[i as int]) == 0);
                    assert(dual_total_fn()(recs[i as int]) == bucket_of(recs[i as int]));
                }
            }
            step_media(
                &mut manga_totals,
                &mut anime_totals,
                &mut bucket_counts,
                p,
                b_us,
                Ghost(recs),
                Ghost(i as int),
                Ghost(n),
            );
            step_stats(&mut stats_tbl, p, b_us, Ghost(recs), Ghost(i as int), Ghost(n));
            step_matchup(&mut matchup_tbl, p, b_us, Ghost(recs), Ghost(i as int), Ghost(n));
        } else {
            proof {
                assert(!is_graded(recs[i as int]));
                crate::model::lemma_scan_ungraded(recs, n, i as int);
                assert forall|g: int| 0 <= g < GEN_COUNT implies (#[trigger] gen_totals@[g]) as int
                    == sum_by(recs.take(i as int + 1), gen_total_fn(g)) && (
                #[trigger] gen_counts@[g]) as int == sum_by(
                    recs.take(i as int + 1),
                    gen_count_fn(g),
                ) by {}
                assert forall|k: int| 0 <= k < TYPING_COUNT implies (#[trigger] typ_totals@[k]) as int
                    == sum_by(recs.take(i as int + 1), typ_total_fn(spec_type_of(k))) && (
                #[trigger] typ_counts@[k]) as int == sum_by(
                    recs.take(i as int + 1),
                    typ_count_fn(spec_type_of(k)),
                ) by {}
                assert forall|c: int| 0 <= c < COLOR_COUNT implies (#[trigger] col_totals@[c]) as int
                    == sum_by(recs.take(i as int + 1), color_total_fn(spec_color_of(c))) && (
                #[trigger] col_counts@[c]) as int == sum_by(
                    recs.take(i as int + 1),
                    color_count_fn(spec_color_of(c)),
                ) by {}
                assert forall|b: int| 0 <= b < n implies (#[trigger] manga_totals@[b]) as int
                    == sum_by(recs.take(i as int + 1), manga_total_fn(b)) && (
                #[trigger] anime_totals@[b]) as int == sum_by(
                    recs.take(i as int + 1),
                    anime_total_fn(b),
                ) && (#[trigger] bucket_counts@[b]) as int == sum_by(
                    recs.take(i as int + 1),
                    bucket_count_fn(b),
                ) by {}
            }
        }
        i = i + 1;
    }
    proof {
        assert(recs.take(recs.len() as int) =~= recs);
    }
    Accums {
        perfect_scores,
        worst_scores,
        gen_totals,
        gen_counts,
        typ_totals,
        typ_counts,
        col_totals,
        col_counts,
        single_total,
        single_count,
        dual_total,
        dual_count,
        manga_totals,
        anime_totals,
        bucket_counts,
        stats_tbl,
        matchup_tbl,
    }
}

/// One analysis run: a single forward scan over the record list fills
/// every grouped accumulator, and the finalizer turns them into the
/// report. The result is pinned exactly: it equals
/// [`spec_analysis`] of the records and the number of grade levels, so
/// identical inputs always give identical output.
///
/// A record with no grade contributes to nothing. A present grade must
/// lie in `1 ..= num_grades` and every record must meet its invariant;
/// a violation is a caller error (the kind on which an unchecked
/// aggregation would abort), so it is excluded by precondition.
#[verifier::rlimit(100)]
pub fn run_analysis(list: &Vec<Pokemon>, num_grades: i32) -> (out: AnalysisOutput)
    requires
        1 <= num_grades,
        list@.len() <= MAX_ANALYZE_RECORDS,
        valid_records(list.deep_view(), num_grades as int),
    ensures
        out@ == spec_analysis(list.deep_view(), num_grades as int),
{
    let ghost recs = list.deep_view();
    let ghost n = num_grades as int;
    let acc = scan_records(list, num_grades);

    // Finalize: per-generation averages.
    let gen_average = build_series(&acc.gen_totals, &acc.gen_counts);
    proof {
        assert(gen_average@ =~= spec_gen_average(recs));
    }

    // Finalize: ranked typing and color groupings.
    let tpairs = build_typing_pairs(&acc.typ_totals, &acc.typ_counts, Ghost(recs));
    let typing_average = sort_pairs(tpairs);
    let cpairs = build_color_pairs(&acc.col_totals, &acc.col_counts, Ghost(recs));
    let color_average = sort_pairs(cpairs);

    // Finalize: media series with extremal marks.
    let manga_series = build_series(&acc.manga_totals, &acc.bucket_counts);
    let anime_series = build_series(&acc.anime_totals, &acc.bucket_counts);
    proof {
        assert(manga_series@ =~= spec_manga_series(recs, n));
        assert(anime_series@ =~= spec_anime_series(recs, n));
    }
    let manga_average = mark_extremes(&manga_series);
    let anime_average = mark_extremes(&anime_series);
    proof {
        assert(manga_average@ =~= marked_series(spec_manga_series(recs, n)));
        assert(anime_average@ =~= marked_series(spec_anime_series(recs, n)));
    }

    // Finalize: the two tables, with ordinals named.
    let raw_stats = acc.stats_tbl.get_result();
    let stats_data = convert_stats(raw_stats, Ghost(acc.stats_tbl@));
    let raw_matchups = acc.matchup_tbl.get_result();
    let matchup_data = convert_matchups(raw_matchups, Ghost(acc.matchup_tbl@));

    let out = AnalysisOutput {
        perfect_scores: acc.perfect_scores,
        worst_scores: acc.worst_scores,
        gen_average,
        typing_average,
        color_average,
        dual_type_average: Average { total: acc.dual_total, count: acc.dual_count },
        single_type_average: Average { total: acc.single_total, count: acc.single_count },
        manga_average,
        anime_average,
        stats_data,
        matchup_data,
    };
    proof {
        assert(out@ =~= spec_analysis(recs, n));
    }
    out
}

} // verus!
