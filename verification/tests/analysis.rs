use pokegrade::analysis::run_analysis;
use pokegrade::average::Average;
use pokegrade::average::Mark;
use pokegrade::data::PColors;
use pokegrade::data::PTypes;
use pokegrade::data::StatNames;
use pokegrade::pokemon::Pokemon;

fn record(
    dex: usize,
    name: &str,
    grade: Option<i32>,
    gen: usize,
    color: PColors,
    typing: Vec<PTypes>,
) -> Pokemon {
    Pokemon {
        grade,
        name: String::from(name),
        dex_no: dex,
        color,
        gen_no: gen,
        typing,
        stats: vec![],
        matchups: vec![],
        manga_count: 0,
        anime_count: 0,
    }
}

fn as_f64(a: &Average) -> f64 {
    a.total as f64 / a.count as f64
}

fn lookup_type(bucket: &Vec<(PTypes, Average)>, t: PTypes) -> Average {
    for e in bucket {
        if e.0 == t {
            return e.1;
        }
    }
    panic!("type not present");
}

#[test]
fn test_determinism_identical_runs() {
    let list = vec![
        record(1, "A", Some(1), 1, PColors::Red, vec![PTypes::Grass]),
        record(2, "B", None, 2, PColors::Blue, vec![PTypes::Water, PTypes::Ice]),
        record(3, "C", Some(3), 1, PColors::Red, vec![PTypes::Fire]),
    ];
    let first = run_analysis(&list, 3);
    let second = run_analysis(&list, 3);
    assert_eq!(first, second);
}

#[test]
fn test_skip_on_null_record() {
    let with_null = vec![
        record(1, "A", Some(2), 1, PColors::Red, vec![PTypes::Grass]),
        record(2, "B", None, 2, PColors::Blue, vec![PTypes::Water]),
        record(3, "C", Some(1), 3, PColors::Green, vec![PTypes::Fire]),
    ];
    let without_null = vec![
        record(1, "A", Some(2), 1, PColors::Red, vec![PTypes::Grass]),
        record(3, "C", Some(1), 3, PColors::Green, vec![PTypes::Fire]),
    ];
    assert_eq!(run_analysis(&with_null, 3), run_analysis(&without_null, 3));
}

#[test]
fn test_scenario_best_and_worst() {
    let list = vec![
        record(1, "Low", Some(1), 1, PColors::Red, vec![PTypes::Grass]),
        record(2, "Mid", Some(2), 1, PColors::Red, vec![PTypes::Water]),
        record(3, "Top", Some(3), 1, PColors::Red, vec![PTypes::Fire]),
    ];
    let out = run_analysis(&list, 3);
    assert_eq!(out.perfect_scores, vec![String::from("Top (0003)")]);
    assert_eq!(out.worst_scores, vec![String::from("Low (0001)")]);
}

#[test]
fn test_single_grade_level_lists_both() {
    let list = vec![record(7, "Only", Some(1), 1, PColors::Gray, vec![PTypes::Rock])];
    let out = run_analysis(&list, 1);
    assert_eq!(out.perfect_scores, vec![String::from("Only (0007)")]);
    assert_eq!(out.worst_scores, vec![String::from("Only (0007)")]);
}

#[test]
fn test_scenario_generation_average() {
    let list = vec![
        record(1, "A", Some(2), 4, PColors::Red, vec![PTypes::Grass]),
        record(2, "B", Some(4), 4, PColors::Blue, vec![PTypes::Water]),
    ];
    let out = run_analysis(&list, 4);
    assert_eq!(out.gen_average.len(), 9);
    let g = &out.gen_average[3];
    assert_eq!(g.total, 4);
    assert_eq!(g.count, 2);
    assert_eq!(as_f64(g), 2.0);
    assert_eq!(out.gen_average[0].count, 0);
}

#[test]
fn test_scenario_neutral_expansion() {
    let mut p = record(4, "D", Some(2), 1, PColors::Red, vec![PTypes::Dragon]);
    p.matchups = vec![(200, vec![PTypes::Fire])];
    let out = run_analysis(&vec![p], 3);
    let bucket = &out.matchup_data[1];
    assert_eq!(bucket.len(), 18);
    for e in bucket {
        assert_eq!(e.1.count, 1);
        if e.0 == PTypes::Fire {
            assert_eq!(e.1.total, 200);
        } else {
            assert_eq!(e.1.total, 100);
        }
    }
    assert_eq!(out.matchup_data[0].len(), 0);
    assert_eq!(out.matchup_data[2].len(), 0);
}

#[test]
fn test_scenario_media_tie_marking() {
    let mut a = record(1, "A", Some(1), 1, PColors::Red, vec![PTypes::Grass]);
    let mut b = record(2, "B", Some(2), 1, PColors::Red, vec![PTypes::Water]);
    let mut c = record(3, "C", Some(3), 1, PColors::Red, vec![PTypes::Fire]);
    a.manga_count = 5;
    b.manga_count = 1;
    c.manga_count = 5;
    let out = run_analysis(&vec![a, b, c], 3);
    assert_eq!(out.manga_average.len(), 3);
    assert_eq!(out.manga_average[0].1, Mark::Plus);
    assert_eq!(out.manga_average[1].1, Mark::Minus);
    assert_eq!(out.manga_average[2].1, Mark::Plus);
    assert_eq!(as_f64(&out.manga_average[0].0), 5.0);
    assert_eq!(as_f64(&out.manga_average[1].0), 1.0);
}

#[test]
fn test_bucket_range_sizes() {
    let list = vec![record(1, "A", Some(3), 2, PColors::Pink, vec![PTypes::Fairy])];
    let out = run_analysis(&list, 5);
    assert_eq!(out.gen_average.len(), 9);
    assert_eq!(out.manga_average.len(), 5);
    assert_eq!(out.anime_average.len(), 5);
    assert_eq!(out.stats_data.len(), 5);
    assert_eq!(out.matchup_data.len(), 5);
}

#[test]
fn test_typing_average_sorted_descending() {
    let list = vec![
        record(1, "A", Some(1), 1, PColors::Red, vec![PTypes::Grass]),
        record(2, "B", Some(3), 1, PColors::Red, vec![PTypes::Water]),
        record(3, "C", Some(2), 1, PColors::Red, vec![PTypes::Fire]),
    ];
    let out = run_analysis(&list, 3);
    assert_eq!(out.typing_average.len(), 3);
    assert_eq!(out.typing_average[0].0, PTypes::Water);
    assert_eq!(out.typing_average[1].0, PTypes::Fire);
    assert_eq!(out.typing_average[2].0, PTypes::Grass);
    assert!(as_f64(&out.typing_average[0].1) >= as_f64(&out.typing_average[1].1));
}

#[test]
fn test_typing_ties_keep_ordinal_order() {
    // Grass and Water tie; the tie order is the declaration order of the
    // types, the same on every run.
    let list = vec![
        record(1, "A", Some(2), 1, PColors::Red, vec![PTypes::Grass]),
        record(2, "B", Some(2), 1, PColors::Red, vec![PTypes::Water]),
    ];
    let out = run_analysis(&list, 3);
    assert_eq!(out.typing_average[0].0, PTypes::Grass);
    assert_eq!(out.typing_average[1].0, PTypes::Water);
}

#[test]
fn test_dual_type_counts_both_types() {
    let list = vec![
        record(1, "A", Some(3), 1, PColors::Red, vec![PTypes::Grass, PTypes::Poison]),
        record(2, "B", Some(1), 1, PColors::Red, vec![PTypes::Grass]),
    ];
    let out = run_analysis(&list, 3);
    let grass = lookup_type(&out.typing_average, PTypes::Grass);
    assert_eq!(grass.count, 2);
    assert_eq!(grass.total, 2);
    let poison = lookup_type(&out.typing_average, PTypes::Poison);
    assert_eq!(poison.count, 1);
    assert_eq!(poison.total, 2);
}

#[test]
fn test_single_dual_split() {
    let list = vec![
        record(1, "A", Some(1), 1, PColors::Red, vec![PTypes::Grass]),
        record(2, "B", Some(2), 1, PColors::Red, vec![PTypes::Water, PTypes::Ice]),
        record(3, "C", Some(3), 1, PColors::Red, vec![PTypes::Fire, PTypes::Flying]),
    ];
    let out = run_analysis(&list, 3);
    assert_eq!(out.single_type_average, Average { total: 0, count: 1 });
    assert_eq!(out.dual_type_average, Average { total: 3, count: 2 });
    assert_eq!(as_f64(&out.dual_type_average), 1.5);
}

#[test]
fn test_color_average_grouping() {
    let list = vec![
        record(1, "A", Some(1), 1, PColors::Red, vec![PTypes::Grass]),
        record(2, "B", Some(3), 1, PColors::Red, vec![PTypes::Water]),
        record(3, "C", Some(2), 1, PColors::Blue, vec![PTypes::Fire]),
    ];
    let out = run_analysis(&list, 3);
    assert_eq!(out.color_average.len(), 2);
    // Red averages bucket 1, Blue bucket 1: a tie, colors keep
    // declaration order (Blue before Red).
    assert_eq!(out.color_average[0].0, PColors::Blue);
    assert_eq!(out.color_average[1].0, PColors::Red);
    assert_eq!(out.color_average[1].1, Average { total: 2, count: 2 });
}

#[test]
fn test_stats_table_averages() {
    let mut a = record(1, "A", Some(3), 1, PColors::Red, vec![PTypes::Grass]);
    let mut b = record(2, "B", Some(3), 1, PColors::Red, vec![PTypes::Water]);
    a.stats = vec![(StatNames::Attack, 100), (StatNames::Speed, 40)];
    b.stats = vec![(StatNames::Attack, 200)];
    let out = run_analysis(&vec![a, b], 3);
    let bucket = &out.stats_data[2];
    let mut saw_attack = false;
    let mut saw_speed = false;
    for e in bucket {
        if e.0 == StatNames::Attack {
            assert_eq!(e.1, Average { total: 300, count: 2 });
            assert_eq!(as_f64(&e.1), 150.0);
            saw_attack = true;
        }
        if e.0 == StatNames::Speed {
            assert_eq!(e.1, Average { total: 40, count: 1 });
            saw_speed = true;
        }
    }
    assert!(saw_attack && saw_speed);
    assert_eq!(bucket.len(), 2);
}

#[test]
fn test_empty_input() {
    let out = run_analysis(&vec![], 3);
    assert_eq!(out.perfect_scores.len(), 0);
    assert_eq!(out.worst_scores.len(), 0);
    assert_eq!(out.typing_average.len(), 0);
    assert_eq!(out.color_average.len(), 0);
    assert_eq!(out.gen_average[0], Average { total: 0, count: 0 });
    assert_eq!(out.single_type_average.count, 0);
    // Undefined averages rank equal and above everything, so every
    // bucket of an empty series ties for the maximum.
    for entry in &out.manga_average {
        assert_eq!(entry.1, Mark::Plus);
    }
}

#[test]
fn test_undefined_bucket_ranks_highest() {
    let mut a = record(1, "A", Some(1), 1, PColors::Red, vec![PTypes::Grass]);
    a.manga_count = 5;
    let out = run_analysis(&vec![a], 2);
    // Bucket 0 holds 5.0; bucket 1 is undefined and ranks above it.
    assert_eq!(out.manga_average[0].0, Average { total: 5, count: 1 });
    assert_eq!(out.manga_average[0].1, Mark::Minus);
    assert_eq!(out.manga_average[1].0, Average { total: 0, count: 0 });
    assert_eq!(out.manga_average[1].1, Mark::Plus);
}

#[test]
fn test_duplicate_multiplier_first_entry_counts() {
    // A type listed under two multipliers takes the first entry's value.
    let mut p = record(1, "A", Some(1), 1, PColors::Red, vec![PTypes::Grass]);
    p.matchups = vec![(50, vec![PTypes::Fire]), (400, vec![PTypes::Fire])];
    let out = run_analysis(&vec![p], 1);
    let bucket = &out.matchup_data[0];
    let mut fire = None;
    for e in bucket {
        if e.0 == PTypes::Fire {
            fire = Some(e.1);
        }
    }
    assert_eq!(fire, Some(Average { total: 50, count: 1 }));
}
