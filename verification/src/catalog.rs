//! The in-memory catalog: building the dex-ordered record list from
//! slide order, lookup and grading by dex number, and rule-based bulk
//! grading.
use vstd::prelude::*;

use crate::data::AutofillRules;
use crate::pokemon::Pokemon;
use crate::pokemon::PokemonView;
use crate::sums::lemma_fold_left_take_succ;

verus! {

/// Clones one typing or matchup type list.
fn clone_types(v: &Vec<crate::data::PTypes>) -> (r: Vec<crate::data::PTypes>)
    ensures
        r@ == v@,
{
    let mut r: Vec<crate::data::PTypes> = Vec::new();
    let mut i: usize = 0;
    while i < v.len()
        invariant
            i <= v@.len(),
            r@ == v@.take(i as int),
        decreases v@.len() - i,
    {
        r.push(v[i]);
        proof {
            assert(r@ =~= v@.take(i + 1));
        }
        i = i + 1;
    }
    proof {
        assert(v@.take(v@.len() as int) =~= v@);
    }
    r
}

/// Clones the stat entries.
fn clone_stats(v: &Vec<(crate::data::StatNames, i32)>) -> (r: Vec<(crate::data::StatNames, i32)>)
    ensures
        r@ == v@,
{
    let mut r: Vec<(crate::data::StatNames, i32)> = Vec::new();
    let mut i: usize = 0;
    while i < v.len()
        invariant
            i <= v@.len(),
            r@ == v@.take(i as int),
        decreases v@.len() - i,
    {
        r.push(v[i]);
        proof {
            assert(r@ =~= v@.take(i + 1));
        }
        i = i + 1;
    }
    proof {
        assert(v@.take(v@.len() as int) =~= v@);
    }
    r
}

/// Clones the sparse matchup list, entry by entry.
fn clone_matchups(v: &Vec<(i32, Vec<crate::data::PTypes>)>) -> (r: Vec<
    (i32, Vec<crate::data::PTypes>),
>)
    ensures
        r@.len() == v@.len(),
        forall|j: int|
            0 <= j < v@.len() ==> (#[trigger] r@[j]).0 == v@[j].0 && r@[j].1@ == v@[j].1@,
{
    let mut r: Vec<(i32, Vec<crate::data::PTypes>)> = Vec::new();
    let mut i: usize = 0;
    while i < v.len()
        invariant
            i <= v@.len(),
            r@.len() == i,
            forall|j: int|
                0 <= j < i ==> (#[trigger] r@[j]).0 == v@[j].0 && r@[j].1@ == v@[j].1@,
        decreases v@.len() - i,
    {
        let entry = &v[i];
        r.push((entry.0, clone_types(&entry.1)));
        i = i + 1;
    }
    r
}

impl Clone for Pokemon {
    /// A clone carries the same view: every field the model sees is
    /// preserved.
    fn clone(&self) -> (r: Self)
        ensures
            r@ == self@,
    {
        let r = Pokemon {
            grade: self.grade,
            name: self.name.clone(),
            dex_no: self.dex_no,
            color: self.color,
            gen_no: self.gen_no,
            typing: clone_types(&self.typing),
            stats: clone_stats(&self.stats),
            matchups: clone_matchups(&self.matchups),
            manga_count: self.manga_count,
            anime_count: self.anime_count,
        };
        proof {
            assert(r@.matchups =~= self@.matchups);
            assert(r@ =~= self@);
        }
        r
    }
}

/// The record at a 1-based dex position; the list must be in dex order
/// for the position to be the dex number.
pub fn get_pokemon_at(list: &Vec<Pokemon>, dex_no: usize) -> (p: Pokemon)
    requires
        1 <= dex_no <= list@.len(),
    ensures
        p@ == list@[dex_no - 1]@,
{
    list[dex_no - 1].clone()
}

/// Sets the grade of the record at a 1-based dex position; nothing else
/// changes.
pub fn set_grade(list: &mut Vec<Pokemon>, dex_no: usize, grade: i32)
    requires
        1 <= dex_no <= old(list)@.len(),
    ensures
        final(list)@.len() == old(list)@.len(),
        final(list)@[dex_no - 1]@ == (PokemonView {
            grade: Some(grade),
            ..old(list)@[dex_no - 1]@
        }),
        forall|j: int|
            0 <= j < old(list)@.len() && j != dex_no - 1 ==> final(list)@[j] == old(list)@[j],
{
    let i = dex_no - 1;
    let mut p = list.remove(i);
    p.grade = Some(grade);
    list.insert(i, p);
    proof {
        assert(list@[dex_no - 1]@ =~= (PokemonView {
            grade: Some(grade),
            ..old(list)@[dex_no - 1]@
        }));
    }
}

/// Whether a record fulfills every filter the rule carries: each present
/// type filter must be one of the record's types, each present
/// generation filter must equal its generation. A rule with no filters
/// matches every record.
pub open spec fn rule_matches(p: PokemonView, rule: AutofillRules) -> bool {
    &&& (rule.type_rule1 matches Some(t) ==> p.typing.contains(t))
    &&& (rule.type_rule2 matches Some(t) ==> p.typing.contains(t))
    &&& (rule.gen_rule1 matches Some(g) ==> p.gen_no == g)
    &&& (rule.gen_rule2 matches Some(g) ==> p.gen_no == g)
}

/// Whether the record fulfills the rule's filters.
pub fn is_rule_match(pokemon: &Pokemon, rule: &AutofillRules) -> (r: bool)
    ensures
        r == rule_matches(pokemon@, *rule),
{
    let mut is_match = true;
    is_match = match &rule.type_rule1 {
        Some(t) => pokemon.is_typing(t) && is_match,
        None => is_match,
    };
    is_match = match &rule.gen_rule1 {
        Some(g) => pokemon.is_gen(g) && is_match,
        None => is_match,
    };
    is_match = match &rule.type_rule2 {
        Some(t) => pokemon.is_typing(t) && is_match,
        None => is_match,
    };
    is_match = match &rule.gen_rule2 {
        Some(g) => pokemon.is_gen(g) && is_match,
        None => is_match,
    };
    is_match
}

/// The grade a record ends with after every rule has been offered, in
/// order: the last matching rule wins; no match leaves the grade as it
/// was. Matching reads only the record's fixed fields, never its grade.
pub open spec fn filled_grade(p: PokemonView, rules: Seq<AutofillRules>) -> Option<i32>
    decreases rules.len(),
{
    if rules.len() == 0 {
        p.grade
    } else if rule_matches(p, rules.last()) {
        Some(rules.last().grade)
    } else {
        filled_grade(p, rules.drop_last())
    }
}

/// Applies every rule to every record: for each record the last matching
/// rule in order sets its grade.
pub fn autofill(list: &mut Vec<Pokemon>, rules: &Vec<AutofillRules>)
    ensures
        final(list)@.len() == old(list)@.len(),
        forall|i: int|
            0 <= i < old(list)@.len() ==> (#[trigger] final(list)@[i])@ == (PokemonView {
                grade: filled_grade(old(list)@[i]@, rules@),
                ..old(list)@[i]@
            }),
{
    let ghost orig = list@;
    let mut i: usize = 0;
    while i < list.len()
        invariant
            i <= orig.len(),
            list@.len() == orig.len(),
            forall|j: int|
                0 <= j < i ==> (#[trigger] list@[j])@ == (PokemonView {
                    grade: filled_grade(orig[j]@, rules@),
                    ..orig[j]@
                }),
            forall|j: int| i <= j < orig.len() ==> (#[trigger] list@[j]) == orig[j],
        decreases orig.len() - i,
    {
        let mut p = list.remove(i);
        let mut chosen: Option<i32> = p.grade;
        let mut j: usize = 0;
        proof {
            assert(rules@.take(0) =~= Seq::<AutofillRules>::empty());
        }
        while j < rules.len()
            invariant
                j <= rules@.len(),
                p@ == orig[i as int]@,
                chosen == filled_grade(p@, rules@.take(j as int)),
            decreases rules@.len() - j,
        {
            if is_rule_match(&p, &rules[j]) {
                chosen = Some(rules[j].grade);
            }
            proof {
                assert(rules@.take(j + 1).drop_last() =~= rules@.take(j as int));
                assert(rules@.take(j + 1).last() == rules@[j as int]);
            }
            j = j + 1;
        }
        proof {
            assert(rules@.take(rules@.len() as int) =~= rules@);
        }
        p.grade = chosen;
        list.insert(i, p);
        proof {
            assert(list@[i as int]@ =~= (PokemonView {
                grade: filled_grade(orig[i as int]@, rules@),
                ..orig[i as int]@
            }));
        }
        i = i + 1;
    }
}

/// Dex order on record views, by `dex_no`.
pub open spec fn dex_sorted(s: Seq<PokemonView>) -> bool {
    forall|i: int, j: int| 0 <= i < j < s.len() ==> (#[trigger] s[i]).dex_no <= (#[trigger] s[j]).dex_no
}

/// Insert behind every record whose dex number is at most the new one.
pub open spec fn insert_by_dex(s: Seq<PokemonView>, p: PokemonView) -> Seq<PokemonView>
    decreases s.len(),
{
    if s.len() == 0 {
        seq![p]
    } else if s[0].dex_no <= p.dex_no {
        seq![s[0]] + insert_by_dex(s.drop_first(), p)
    } else {
        seq![p] + s
    }
}

/// Stable insertion sort by dex number, element by element in input
/// order.
pub open spec fn sort_by_dex(s: Seq<PokemonView>) -> Seq<PokemonView>
    decreases s.len(),
{
    if s.len() == 0 {
        Seq::empty()
    } else {
        insert_by_dex(sort_by_dex(s.drop_last()), s.last())
    }
}

proof fn lemma_insert_by_dex_at(s: Seq<PokemonView>, p: PokemonView, pos: int)
    requires
        0 <= pos <= s.len(),
        forall|j: int| 0 <= j < pos ==> (#[trigger] s[j]).dex_no <= p.dex_no,
        pos < s.len() ==> s[pos].dex_no > p.dex_no,
    ensures
        insert_by_dex(s, p) == s.take(pos) + seq![p] + s.skip(pos),
    decreases s.len(),
{
    if s.len() == 0 {
        assert(insert_by_dex(s, p) =~= s.take(0) + seq![p] + s.skip(0));
    } else if pos == 0 {
        assert(insert_by_dex(s, p) =~= s.take(0) + seq![p] + s.skip(0));
    } else {
        let d = s.drop_first();
        assert(forall|j: int| 0 <= j < pos - 1 ==> (#[trigger] d[j]).dex_no <= p.dex_no);
        lemma_insert_by_dex_at(d, p, pos - 1);
        assert(insert_by_dex(s, p) =~= s.take(pos) + seq![p] + s.skip(pos)) by {
            assert(insert_by_dex(s, p) == seq![s[0]] + (d.take(pos - 1) + seq![p] + d.skip(
                pos - 1,
            )));
            assert(seq![s[0]] + (d.take(pos - 1) + seq![p] + d.skip(pos - 1)) =~= s.take(pos)
                + seq![p] + s.skip(pos));
        }
    }
}

proof fn lemma_insert_by_dex_sorted(s: Seq<PokemonView>, p: PokemonView)
    requires
        dex_sorted(s),
    ensures
        dex_sorted(insert_by_dex(s, p)),
        insert_by_dex(s, p).len() == s.len() + 1,
        insert_by_dex(s, p).to_multiset() =~= s.to_multiset().insert(p),
    decreases s.len(),
{
    broadcast use vstd::seq_lib::group_to_multiset_ensures;

    let r = insert_by_dex(s, p);
    if s.len() == 0 {
        assert(r =~= Seq::empty().push(p));
        assert(Seq::<PokemonView>::empty().to_multiset() =~= vstd::multiset::Multiset::empty());
    } else if s[0].dex_no <= p.dex_no {
        let d = s.drop_first();
        assert(forall|i: int, j: int|
            0 <= i < j < d.len() ==> (#[trigger] d[i]).dex_no <= (#[trigger] d[j]).dex_no);
        lemma_insert_by_dex_sorted(d, p);
        let rd = insert_by_dex(d, p);
        assert(r =~= seq![s[0]] + rd);
        assert forall|j: int| 0 <= j < rd.len() implies s[0].dex_no <= rd[j].dex_no by {
            assert(rd.contains(rd[j]));
            assert(rd.to_multiset().count(rd[j]) > 0);
            if rd[j] == p {
            } else {
                assert(d.to_multiset().count(rd[j]) > 0);
                assert(d.contains(rd[j]));
                let w = choose|w: int| 0 <= w < d.len() && d[w] == rd[j];
                assert(d[w] == s[w + 1]);
            }
        }
        assert(dex_sorted(r));
        vstd::seq_lib::lemma_multiset_commutative(seq![s[0]], rd);
        vstd::seq_lib::lemma_multiset_commutative(seq![s[0]], d);
        assert(seq![s[0]] + d =~= s);
        assert(r.to_multiset() =~= s.to_multiset().insert(p)) by {
            assert(r.to_multiset() == seq![s[0]].to_multiset().add(rd.to_multiset()));
            assert(s.to_multiset() == seq![s[0]].to_multiset().add(d.to_multiset()));
            assert(rd.to_multiset() == d.to_multiset().insert(p));
        }
    } else {
        assert forall|j: int| 0 <= j < s.len() implies p.dex_no <= s[j].dex_no by {
            if j > 0 {
                assert(s[0].dex_no <= s[j].dex_no);
            }
        }
        assert(r =~= seq![p] + s);
        vstd::seq_lib::lemma_multiset_commutative(seq![p], s);
        assert(seq![p].to_multiset() =~= vstd::multiset::Multiset::empty().insert(p)) by {
            assert(seq![p] =~= Seq::<PokemonView>::empty().push(p));
        }
        assert(r.to_multiset() =~= s.to_multiset().insert(p));
    }
}

/// The sorted output is in dex order and a permutation of the input.
pub proof fn lemma_sort_by_dex_props(s: Seq<PokemonView>)
    ensures
        sort_by_dex(s).len() == s.len(),
        dex_sorted(sort_by_dex(s)),
        sort_by_dex(s).to_multiset() =~= s.to_multiset(),
    decreases s.len(),
{
    broadcast use vstd::seq_lib::group_to_multiset_ensures;

    if s.len() == 0 {
    } else {
        let d = s.drop_last();
        lemma_sort_by_dex_props(d);
        lemma_insert_by_dex_sorted(sort_by_dex(d), s.last());
        assert(d.push(s.last()) =~= s);
    }
}

/// Sorts records into dex order; the result is exactly the stable
/// insertion sort of the views.
fn sort_pokemon(mut v: Vec<Pokemon>) -> (r: Vec<Pokemon>)
    ensures
        r.deep_view() == sort_by_dex(v.deep_view()),
{
    let ghost orig = v.deep_view();
    let mut r: Vec<Pokemon> = Vec::new();
    let mut k: usize = 0;
    proof {
        assert(orig.take(0) =~= Seq::<PokemonView>::empty());
        assert(r.deep_view() =~= sort_by_dex(orig.take(0)));
    }
    while k < v.len()
        invariant
            k <= orig.len(),
            v.deep_view() == orig,
            v@.len() == orig.len(),
            r.deep_view() == sort_by_dex(orig.take(k as int)),
            r@.len() == k,
        decreases orig.len() - k,
    {
        let ghost rdv = r.deep_view();
        let mut pos: usize = 0;
        while pos < r.len() && r[pos].dex_no <= v[k].dex_no
            invariant
                pos <= r@.len(),
                forall|j: int| 0 <= j < pos ==> (#[trigger] rdv[j]).dex_no <= orig[k as int].dex_no,
                rdv == r.deep_view(),
                r@.len() == rdv.len(),
                v.deep_view() == orig,
                v@.len() == orig.len(),
                k < orig.len(),
            decreases r@.len() - pos,
        {
            proof {
                assert(rdv[pos as int] == r@[pos as int]@);
                assert(orig[k as int] == v@[k as int]@);
            }
            pos = pos + 1;
        }
        proof {
            assert(pos < r@.len() ==> rdv[pos as int].dex_no > orig[k as int].dex_no) by {
                if pos < r@.len() {
                    assert(rdv[pos as int] == r@[pos as int]@);
                    assert(orig[k as int] == v@[k as int]@);
                }
            }
            lemma_insert_by_dex_at(rdv, orig[k as int], pos as int);
        }
        let p = v[k].clone();
        r.insert(pos, p);
        proof {
            assert(r.deep_view() =~= rdv.take(pos as int) + seq![orig[k as int]] + rdv.skip(
                pos as int,
            ));
            assert(orig.take(k + 1).drop_last() =~= orig.take(k as int));
            assert(orig.take(k + 1).last() == orig[k as int]);
            assert(r.deep_view() == sort_by_dex(orig.take(k + 1)));
        }
        k = k + 1;
    }
    proof {
        assert(orig.take(orig.len() as int) =~= orig);
    }
    r
}

/// One slide's record views appended to the accumulator.
pub open spec fn concat_views_fn() -> spec_fn(Seq<PokemonView>, Vec<Pokemon>) -> Seq<PokemonView> {
    |acc: Seq<PokemonView>, sl: Vec<Pokemon>| acc + sl.deep_view()
}

/// Concatenation of the slides' record views, slide by slide.
pub open spec fn flat_views(ss: Seq<Vec<Pokemon>>) -> Seq<PokemonView> {
    ss.fold_left(Seq::<PokemonView>::empty(), concat_views_fn())
}

/// Builds the catalog from records received in slide order: returns the
/// full list sorted into dex order, together with each slide's dex
/// numbers in their original order.
pub fn init_list(slides: &Vec<Vec<Pokemon>>) -> (r: (Vec<Pokemon>, Vec<Vec<usize>>))
    ensures
        r.0.deep_view() == sort_by_dex(flat_views(slides@)),
        r.1@.len() == slides@.len(),
        forall|si: int| 0 <= si < slides@.len() ==> (#[trigger] r.1@[si])@.len() == slides@[si]@.len(),
        forall|si: int, pi: int|
            0 <= si < slides@.len() && 0 <= pi < slides@[si]@.len() ==> (#[trigger] r.1@[si]@[pi])
                == slides@[si]@[pi].dex_no,
{
    let mut list: Vec<Pokemon> = Vec::new();
    let mut slide_order: Vec<Vec<usize>> = Vec::new();
    let mut si: usize = 0;
    proof {
        assert(slides@.take(0) =~= Seq::<Vec<Pokemon>>::empty());
        assert(list.deep_view() =~= flat_views(slides@.take(0)));
    }
    while si < slides.len()
        invariant
            si <= slides@.len(),
            list.deep_view() == flat_views(slides@.take(si as int)),
            slide_order@.len() == si,
            forall|s2: int| 0 <= s2 < si ==> (#[trigger] slide_order@[s2])@.len() == slides@[s2]@.len(),
            forall|s2: int, pi: int|
                0 <= s2 < si && 0 <= pi < slides@[s2]@.len() ==> (#[trigger] slide_order@[s2]@[pi])
                    == slides@[s2]@[pi].dex_no,
        decreases slides@.len() - si,
    {
        let slide = &slides[si];
        let mut current: Vec<usize> = Vec::new();
        let ghost before = list.deep_view();
        let mut pi: usize = 0;
        while pi < slide.len()
            invariant
                pi <= slide@.len(),
                slide@ == slides@[si as int]@,
                si < slides@.len(),
                current@.len() == pi,
                forall|p2: int| 0 <= p2 < pi ==> (#[trigger] current@[p2]) == slide@[p2].dex_no,
                list.deep_view() == before + slide.deep_view().take(pi as int),
            decreases slide@.len() - pi,
        {
            let ghost ldv = list.deep_view();
            current.push(slide[pi].dex_no);
            list.push(slide[pi].clone());
            proof {
                assert(slide.deep_view()[pi as int] == slide@[pi as int]@);
                assert(list@.last()@ == slide@[pi as int]@);
                assert(list.deep_view() =~= ldv.push(slide@[pi as int]@));
                assert(slide.deep_view().take(pi + 1) =~= slide.deep_view().take(pi as int).push(
                    slide@[pi as int]@,
                ));
                assert(list.deep_view() =~= before + slide.deep_view().take(pi + 1));
            }
            pi = pi + 1;
        }
        slide_order.push(current);
        proof {
            assert(slide.deep_view().take(slide@.len() as int) =~= slide.deep_view());
            lemma_fold_left_take_succ(
                slides@,
                Seq::<PokemonView>::empty(),
                concat_views_fn(),
                si as int,
            );
            assert(list.deep_view() == flat_views(slides@.take(si + 1)));
        }
        si = si + 1;
    }
    proof {
        assert(slides@.take(slides@.len() as int) =~= slides@);
    }
    let sorted = sort_pokemon(list);
    (sorted, slide_order)
}

} // verus!
