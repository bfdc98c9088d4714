//! The closed categorical sets of the catalog: elemental types, colors and
//! stat names, together with their ordinal indexing, and the autofill rule
//! record.
use vstd::prelude::*;

verus! {

/// Number of records in the full catalog.
pub const POKEMON_COUNT: usize = 1010;

/// Number of generations; `gen_no` is 1-based, so valid values are
/// `1 ..= GEN_COUNT`.
pub const GEN_COUNT: usize = 9;

/// Number of elemental types.
pub const TYPING_COUNT: usize = 18;

/// Number of colors.
pub const COLOR_COUNT: usize = 10;

/// Effectiveness multiplier implied for every type a record's sparse
/// matchup list does not mention (100 stands for x1.0, scaled by 100).
pub const NEUTRAL_MULTIPLIER: i32 = 100;

/// The 18 elemental types.
#[derive(Clone, Copy, Debug, PartialEq, Eq, Structural)]
pub enum PTypes {
    Normal,
    Grass,
    Water,
    Fire,
    Electric,
    Fighting,
    Flying,
    Poison,
    Ground,
    Psychic,
    Rock,
    Ice,
    Bug,
    Dragon,
    Spectral,
    Dark,
    Steel,
    Fairy,
}

/// The 10 colors.
#[derive(Clone, Copy, Debug, PartialEq, Eq, Structural)]
pub enum PColors {
    White,
    Black,
    Gray,
    Blue,
    Red,
    Green,
    Pink,
    Purple,
    Brown,
    Yellow,
}

/// The 6 reported stat names.
#[derive(Clone, Copy, Debug, PartialEq, Eq, Structural)]
pub enum StatNames {
    Attack,
    Defense,
    SpAtk,
    SpDef,
    Speed,
    Hp,
}

/// Ordinal of a type, following declaration order.
pub open spec fn spec_type_index(t: PTypes) -> int {
    match t {
        PTypes::Normal => 0,
        PTypes::Grass => 1,
        PTypes::Water => 2,
        PTypes::Fire => 3,
        PTypes::Electric => 4,
        PTypes::Fighting => 5,
        PTypes::Flying => 6,
        PTypes::Poison => 7,
        PTypes::Ground => 8,
        PTypes::Psychic => 9,
        PTypes::Rock => 10,
        PTypes::Ice => 11,
        PTypes::Bug => 12,
        PTypes::Dragon => 13,
        PTypes::Spectral => 14,
        PTypes::Dark => 15,
        PTypes::Steel => 16,
        PTypes::Fairy => 17,
    }
}

/// The type with the given ordinal.
pub open spec fn spec_type_of(i: int) -> PTypes {
    if i == 0 {
        PTypes::Normal
    } else if i == 1 {
        PTypes::Grass
    } else if i == 2 {
        PTypes::Water
    } else if i == 3 {
        PTypes::Fire
    } else if i == 4 {
        PTypes::Electric
    } else if i == 5 {
        PTypes::Fighting
    } else if i == 6 {
        PTypes::Flying
    } else if i == 7 {
        PTypes::Poison
    } else if i == 8 {
        PTypes::Ground
    } else if i == 9 {
        PTypes::Psychic
    } else if i == 10 {
        PTypes::Rock
    } else if i == 11 {
        PTypes::Ice
    } else if i == 12 {
        PTypes::Bug
    } else if i == 13 {
        PTypes::Dragon
    } else if i == 14 {
        PTypes::Spectral
    } else if i == 15 {
        PTypes::Dark
    } else if i == 16 {
        PTypes::Steel
    } else {
        PTypes::Fairy
    }
}

pub proof fn lemma_type_index_of(i: int)
    requires
        0 <= i < TYPING_COUNT,
    ensures
        spec_type_index(spec_type_of(i)) == i,
{
}

pub proof fn lemma_type_of_index(t: PTypes)
    ensures
        0 <= spec_type_index(t) < TYPING_COUNT,
        spec_type_of(spec_type_index(t)) == t,
{
}

/// Ordinal of a type, usable from executable code.
pub fn type_index(t: PTypes) -> (i: usize)
    ensures
        i == spec_type_index(t),
        i < TYPING_COUNT,
{
    match t {
        PTypes::Normal => 0,
        PTypes::Grass => 1,
        PTypes::Water => 2,
        PTypes::Fire => 3,
        PTypes::Electric => 4,
        PTypes::Fighting => 5,
        PTypes::Flying => 6,
        PTypes::Poison => 7,
        PTypes::Ground => 8,
        PTypes::Psychic => 9,
        PTypes::Rock => 10,
        PTypes::Ice => 11,
        PTypes::Bug => 12,
        PTypes::Dragon => 13,
        PTypes::Spectral => 14,
        PTypes::Dark => 15,
        PTypes::Steel => 16,
        PTypes::Fairy => 17,
    }
}

/// The type with the given ordinal, usable from executable code.
pub fn type_of_index(i: usize) -> (t: PTypes)
    requires
        i < TYPING_COUNT,
    ensures
        t == spec_type_of(i as int),
{
    if i == 0 {
        PTypes::Normal
    } else if i == 1 {
        PTypes::Grass
    } else if i == 2 {
        PTypes::Water
    } else if i == 3 {
        PTypes::Fire
    } else if i == 4 {
        PTypes::Electric
    } else if i == 5 {
        PTypes::Fighting
    } else if i == 6 {
        PTypes::Flying
    } else if i == 7 {
        PTypes::Poison
    } else if i == 8 {
        PTypes::Ground
    } else if i == 9 {
        PTypes::Psychic
    } else if i == 10 {
        PTypes::Rock
    } else if i == 11 {
        PTypes::Ice
    } else if i == 12 {
        PTypes::Bug
    } else if i == 13 {
        PTypes::Dragon
    } else if i == 14 {
        PTypes::Spectral
    } else if i == 15 {
        PTypes::Dark
    } else if i == 16 {
        PTypes::Steel
    } else {
        PTypes::Fairy
    }
}

/// All 18 types in declaration order; replaces iterating the enum.
pub fn list_ptypes() -> (v: Vec<PTypes>)
    ensures
        v@.len() == TYPING_COUNT,
        forall|i: int| 0 <= i < TYPING_COUNT ==> v@[i] == spec_type_of(i),
{
    let mut v: Vec<PTypes> = Vec::new();
    let mut i: usize = 0;
    while i < TYPING_COUNT
        invariant
            i <= TYPING_COUNT,
            v@.len() == i,
            forall|j: int| 0 <= j < i ==> v@[j] == spec_type_of(j),
        decreases TYPING_COUNT - i,
    {
        v.push(type_of_index(i));
        i = i + 1;
    }
    v
}

/// Ordinal of a color, following declaration order.
pub open spec fn spec_color_index(c: PColors) -> int {
    match c {
        PColors::White => 0,
        PColors::Black => 1,
        PColors::Gray => 2,
        PColors::Blue => 3,
        PColors::Red => 4,
        PColors::Green => 5,
        PColors::Pink => 6,
        PColors::Purple => 7,
        PColors::Brown => 8,
        PColors::Yellow => 9,
    }
}

/// The color with the given ordinal.
pub open spec fn spec_color_of(i: int) -> PColors {
    if i == 0 {
        PColors::White
    } else if i == 1 {
        PColors::Black
    } else if i == 2 {
        PColors::Gray
    } else if i == 3 {
        PColors::Blue
    } else if i == 4 {
        PColors::Red
    } else if i == 5 {
        PColors::Green
    } else if i == 6 {
        PColors::Pink
    } else if i == 7 {
        PColors::Purple
    } else if i == 8 {
        PColors::Brown
    } else {
        PColors::Yellow
    }
}

pub proof fn lemma_color_index_of(i: int)
    requires
        0 <= i < COLOR_COUNT,
    ensures
        spec_color_index(spec_color_of(i)) == i,
{
}

pub proof fn lemma_color_of_index(c: PColors)
    ensures
        0 <= spec_color_index(c) < COLOR_COUNT,
        spec_color_of(spec_color_index(c)) == c,
{
}

/// Ordinal of a color, usable from executable code.
pub fn color_index(c: PColors) -> (i: usize)
    ensures
        i == spec_color_index(c),
        i < COLOR_COUNT,
{
    match c {
        PColors::White => 0,
        PColors::Black => 1,
        PColors::Gray => 2,
        PColors::Blue => 3,
        PColors::Red => 4,
        PColors::Green => 5,
        PColors::Pink => 6,
        PColors::Purple => 7,
        PColors::Brown => 8,
        PColors::Yellow => 9,
    }
}

/// The color with the given ordinal, usable from executable code.
pub fn color_of_index(i: usize) -> (c: PColors)
    requires
        i < COLOR_COUNT,
    ensures
        c == spec_color_of(i as int),
{
    if i == 0 {
        PColors::White
    } else if i == 1 {
        PColors::Black
    } else if i == 2 {
        PColors::Gray
    } else if i == 3 {
        PColors::Blue
    } else if i == 4 {
        PColors::Red
    } else if i == 5 {
        PColors::Green
    } else if i == 6 {
        PColors::Pink
    } else if i == 7 {
        PColors::Purple
    } else if i == 8 {
        PColors::Brown
    } else {
        PColors::Yellow
    }
}

/// Ordinal of a stat name, following declaration order.
pub open spec fn spec_stat_index(s: StatNames) -> int {
    match s {
        StatNames::Attack => 0,
        StatNames::Defense => 1,
        StatNames::SpAtk => 2,
        StatNames::SpDef => 3,
        StatNames::Speed => 4,
        StatNames::Hp => 5,
    }
}

/// The stat name with the given ordinal.
pub open spec fn spec_stat_of(i: int) -> StatNames {
    if i == 0 {
        StatNames::Attack
    } else if i == 1 {
        StatNames::Defense
    } else if i == 2 {
        StatNames::SpAtk
    } else if i == 3 {
        StatNames::SpDef
    } else if i == 4 {
        StatNames::Speed
    } else {
        StatNames::Hp
    }
}

/// Ordinal of a stat name, usable from executable code.
pub fn stat_index(s: StatNames) -> (i: usize)
    ensures
        i == spec_stat_index(s),
        i < 6,
{
    match s {
        StatNames::Attack => 0,
        StatNames::Defense => 1,
        StatNames::SpAtk => 2,
        StatNames::SpDef => 3,
        StatNames::Speed => 4,
        StatNames::Hp => 5,
    }
}

/// The stat name with the given ordinal, usable from executable code.
pub fn stat_of_index(i: usize) -> (s: StatNames)
    requires
        i < 6,
    ensures
        s == spec_stat_of(i as int),
{
    if i == 0 {
        StatNames::Attack
    } else if i == 1 {
        StatNames::Defense
    } else if i == 2 {
        StatNames::SpAtk
    } else if i == 3 {
        StatNames::SpDef
    } else if i == 4 {
        StatNames::Speed
    } else {
        StatNames::Hp
    }
}

/// One bulk-grading rule: an optional conjunction of up to two
/// type-membership and two generation-equality filters, bound to the grade
/// to assign. A rule with all four filters absent matches every record.
pub struct AutofillRules {
    pub type_rule1: Option<PTypes>,
    pub type_rule2: Option<PTypes>,
    pub gen_rule1: Option<usize>,
    pub gen_rule2: Option<usize>,
    pub grade: i32,
}

} // verus!
