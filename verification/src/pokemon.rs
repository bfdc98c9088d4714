//! The catalog record: one entry per catalog item, immutable except for
//! its grade. Identity and total order are given by `dex_no` alone.
use vstd::prelude::*;

use crate::data::GEN_COUNT;
use crate::data::PColors;
use crate::data::PTypes;
use crate::data::StatNames;

verus! {

/// One catalog record.
pub struct Pokemon {
    /// User-assigned 1-based ordinal; `None` means ungraded, excluded
    /// from every aggregation.
    pub grade: Option<i32>,
    pub name: String,
    /// Unique 1-based catalog identity; the total order of records.
    pub dex_no: usize,
    pub color: PColors,
    /// 1-based generation index, in `1 ..= GEN_COUNT`.
    pub gen_no: usize,
    /// One or two distinct elemental types.
    pub typing: Vec<PTypes>,
    /// Stat values by name; each reported name appears at most once.
    pub stats: Vec<(StatNames, i32)>,
    /// Sparse effectiveness map: each entry is a multiplier (scaled by
    /// 100) with the types it applies to; unlisted types are neutral.
    pub matchups: Vec<(i32, Vec<PTypes>)>,
    /// Manga appearance count.
    pub manga_count: u32,
    /// Anime appearance count.
    pub anime_count: u32,
}

/// The mathematical shape of a record.
#[verifier::ext_equal]
pub ghost struct PokemonView {
    pub grade: Option<i32>,
    pub name: Seq<char>,
    pub dex_no: int,
    pub color: PColors,
    pub gen_no: int,
    pub typing: Seq<PTypes>,
    pub stats: Seq<(StatNames, i32)>,
    pub matchups: Seq<(i32, Seq<PTypes>)>,
    pub manga_count: int,
    pub anime_count: int,
}

impl View for Pokemon {
    type V = PokemonView;

    open spec fn view(&self) -> PokemonView {
        PokemonView {
            grade: self.grade,
            name: self.name@,
            dex_no: self.dex_no as int,
            color: self.color,
            gen_no: self.gen_no as int,
            typing: self.typing@,
            stats: self.stats@,
            matchups: self.matchups@.map_values(|e: (i32, Vec<PTypes>)| (e.0, e.1@)),
            manga_count: self.manga_count as int,
            anime_count: self.anime_count as int,
        }
    }
}

impl DeepView for Pokemon {
    type V = PokemonView;

    open spec fn deep_view(&self) -> PokemonView {
        self.view()
    }
}

/// Whether the record carries a grade.
pub open spec fn is_graded(r: PokemonView) -> bool {
    r.grade is Some
}

/// The zero-based grade bucket of a graded record.
pub open spec fn bucket_of(r: PokemonView) -> int {
    r.grade->0 - 1
}

/// The record invariant the engine relies on, for `num_grades` grade
/// levels: a present grade lies in `1 ..= num_grades`, the generation
/// index is in range, the typing holds one or two distinct types, and no
/// stat name repeats.
pub open spec fn valid_record(r: PokemonView, num_grades: int) -> bool {
    &&& (is_graded(r) ==> 1 <= r.grade->0 <= num_grades)
    &&& 1 <= r.gen_no <= GEN_COUNT
    &&& 1 <= r.typing.len() <= 2
    &&& (forall|i: int, j: int| 0 <= i < j < r.typing.len() ==> r.typing[i] != r.typing[j])
    &&& (forall|i: int, j: int|
        0 <= i < j < r.stats.len() ==> (#[trigger] r.stats[i]).0 != (#[trigger] r.stats[j]).0)
}

impl Pokemon {
    /// Whether the record has the given type.
    pub fn is_typing(&self, typing: &PTypes) -> (r: bool)
        ensures
            r == self@.typing.contains(*typing),
    {
        let mut i: usize = 0;
        while i < self.typing.len()
            invariant
                i <= self@.typing.len(),
                forall|j: int| 0 <= j < i ==> self@.typing[j] != *typing,
            decreases self@.typing.len() - i,
        {
            if self.typing[i] == *typing {
                return true;
            }
            i = i + 1;
        }
        false
    }

    /// Whether the record belongs to the given generation.
    pub fn is_gen(&self, gen: &usize) -> (r: bool)
        ensures
            r == (self@.gen_no == *gen),
    {
        &self.gen_no == gen
    }
}

impl PartialEq for Pokemon {
    fn eq(&self, other: &Self) -> (r: bool) {
        self.dex_no == other.dex_no
    }
}

impl vstd::std_specs::cmp::PartialEqSpecImpl for Pokemon {
    open spec fn obeys_eq_spec() -> bool {
        true
    }

    open spec fn eq_spec(&self, other: &Pokemon) -> bool {
        self.dex_no == other.dex_no
    }
}

impl Eq for Pokemon {

}

impl PartialOrd for Pokemon {
    fn partial_cmp(&self, other: &Self) -> (r: Option<core::cmp::Ordering>) {
        if self.dex_no < other.dex_no {
            Some(core::cmp::Ordering::Less)
        } else if self.dex_no == other.dex_no {
            Some(core::cmp::Ordering::Equal)
        } else {
            Some(core::cmp::Ordering::Greater)
        }
    }
}

impl vstd::std_specs::cmp::PartialOrdSpecImpl for Pokemon {
    open spec fn obeys_partial_cmp_spec() -> bool {
        true
    }

    open spec fn partial_cmp_spec(&self, other: &Pokemon) -> Option<core::cmp::Ordering> {
        if self.dex_no < other.dex_no {
            Some(core::cmp::Ordering::Less)
        } else if self.dex_no == other.dex_no {
            Some(core::cmp::Ordering::Equal)
        } else {
            Some(core::cmp::Ordering::Greater)
        }
    }
}

} // verus!
