use pokegrade::catalog::autofill;
use pokegrade::catalog::get_pokemon_at;
use pokegrade::catalog::init_list;
use pokegrade::catalog::is_rule_match;
use pokegrade::catalog::set_grade;
use pokegrade::data::AutofillRules;
use pokegrade::data::PColors;
use pokegrade::data::PTypes;
use pokegrade::data::list_ptypes;
use pokegrade::pokemon::Pokemon;

fn record(dex: usize, name: &str, gen: usize, typing: Vec<PTypes>) -> Pokemon {
    Pokemon {
        grade: None,
        name: String::from(name),
        dex_no: dex,
        color: PColors::Green,
        gen_no: gen,
        typing,
        stats: vec![],
        matchups: vec![],
        manga_count: 0,
        anime_count: 0,
    }
}

fn open_rule(grade: i32) -> AutofillRules {
    AutofillRules { type_rule1: None, type_rule2: None, gen_rule1: None, gen_rule2: None, grade }
}

#[test]
fn test_init_list_sorts_by_dex() {
    let slides = vec![
        vec![record(3, "C", 1, vec![PTypes::Fire]), record(1, "A", 1, vec![PTypes::Grass])],
        vec![record(2, "B", 1, vec![PTypes::Water])],
    ];
    let (list, order) = init_list(&slides);
    assert_eq!(list.len(), 3);
    assert_eq!(list[0].dex_no, 1);
    assert_eq!(list[1].dex_no, 2);
    assert_eq!(list[2].dex_no, 3);
    assert_eq!(order, vec![vec![3, 1], vec![2]]);
}

#[test]
fn test_get_pokemon_at_position() {
    let slides = vec![vec![
        record(2, "B", 1, vec![PTypes::Water]),
        record(1, "A", 1, vec![PTypes::Grass]),
    ]];
    let (list, _) = init_list(&slides);
    let p = get_pokemon_at(&list, 2);
    assert_eq!(p.name, String::from("B"));
    assert_eq!(p.dex_no, 2);
}

#[test]
fn test_set_grade_changes_one_record() {
    let mut list = vec![record(1, "A", 1, vec![PTypes::Grass]), record(
        2,
        "B",
        1,
        vec![PTypes::Water],
    )];
    set_grade(&mut list, 2, 5);
    assert_eq!(list[0].grade, None);
    assert_eq!(list[1].grade, Some(5));
    assert_eq!(list[1].name, String::from("B"));
}

#[test]
fn test_rule_match_conjunction() {
    let p = record(1, "A", 3, vec![PTypes::Grass, PTypes::Poison]);
    let both = AutofillRules {
        type_rule1: Some(PTypes::Grass),
        type_rule2: Some(PTypes::Poison),
        gen_rule1: Some(3),
        gen_rule2: None,
        grade: 4,
    };
    assert!(is_rule_match(&p, &both));
    let wrong_gen = AutofillRules {
        type_rule1: Some(PTypes::Grass),
        type_rule2: None,
        gen_rule1: Some(2),
        gen_rule2: None,
        grade: 4,
    };
    assert!(!is_rule_match(&p, &wrong_gen));
    assert!(is_rule_match(&p, &open_rule(1)));
}

#[test]
fn test_autofill_last_match_wins() {
    let mut list = vec![
        record(1, "A", 1, vec![PTypes::Grass]),
        record(2, "B", 2, vec![PTypes::Water]),
    ];
    let mut gen_rule = open_rule(7);
    gen_rule.gen_rule1 = Some(1);
    let rules = vec![open_rule(2), gen_rule];
    autofill(&mut list, &rules);
    // The generation rule matches only the first record and, coming
    // last, overrides the catch-all.
    assert_eq!(list[0].grade, Some(7));
    assert_eq!(list[1].grade, Some(2));
}

#[test]
fn test_autofill_no_match_keeps_grade() {
    let mut list = vec![record(1, "A", 1, vec![PTypes::Grass])];
    list[0].grade = Some(3);
    let mut rule = open_rule(9);
    rule.type_rule1 = Some(PTypes::Fire);
    autofill(&mut list, &vec![rule]);
    assert_eq!(list[0].grade, Some(3));
}

#[test]
fn test_is_typing_and_is_gen() {
    let p = record(1, "A", 4, vec![PTypes::Grass, PTypes::Poison]);
    assert!(p.is_typing(&PTypes::Grass));
    assert!(p.is_typing(&PTypes::Poison));
    assert!(!p.is_typing(&PTypes::Fire));
    assert!(p.is_gen(&4));
    assert!(!p.is_gen(&1));
}

#[test]
fn test_list_ptypes_all_distinct() {
    let all = list_ptypes();
    assert_eq!(all.len(), 18);
    for i in 0..all.len() {
        for j in 0..i {
            assert!(all[i] != all[j]);
        }
    }
    assert_eq!(all[0], PTypes::Normal);
    assert_eq!(all[17], PTypes::Fairy);
}

#[test]
fn test_pokemon_identity_is_dex_number() {
    let a = record(5, "A", 1, vec![PTypes::Grass]);
    let b = record(5, "Other", 2, vec![PTypes::Fire]);
    let c = record(6, "A", 1, vec![PTypes::Grass]);
    assert!(a == b);
    assert!(a != c);
    assert!(a < c);
}
