use pokegrade::codec::get_gradebook_csv;
use pokegrade::codec::parse_csv_file;
use pokegrade::data::PColors;
use pokegrade::data::PTypes;
use pokegrade::pokemon::Pokemon;

fn record(dex: usize, grade: Option<i32>) -> Pokemon {
    Pokemon {
        grade,
        name: String::from("R"),
        dex_no: dex,
        color: PColors::Red,
        gen_no: 1,
        typing: vec![PTypes::Grass],
        stats: vec![],
        matchups: vec![],
        manga_count: 0,
        anime_count: 0,
    }
}

#[test]
fn test_encode_line_with_cursor() {
    let list = vec![record(1, Some(1)), record(2, Some(2)), record(3, None)];
    let s = get_gradebook_csv(&list, 2);
    assert_eq!(s, String::from("1,|2,0"));
}

#[test]
fn test_encode_cursor_on_first_cell() {
    let list = vec![record(1, None), record(2, Some(7))];
    let s = get_gradebook_csv(&list, 1);
    assert_eq!(s, String::from("|0,7"));
}

#[test]
fn test_decode_sets_grades_and_cursor() {
    let mut list = vec![record(1, None), record(2, None), record(3, None)];
    let pos = parse_csv_file(&mut list, "3,|1,2");
    assert_eq!(pos, 1);
    assert_eq!(list[0].grade, Some(3));
    assert_eq!(list[1].grade, Some(1));
    assert_eq!(list[2].grade, Some(2));
}

#[test]
fn test_decode_malformed_cells_are_ungraded() {
    let mut list = vec![record(1, Some(9)), record(2, Some(9)), record(3, Some(9)), record(
        4,
        Some(9),
    )];
    let pos = parse_csv_file(&mut list, "abc,0,-4,2");
    assert_eq!(pos, 0);
    assert_eq!(list[0].grade, None);
    assert_eq!(list[1].grade, None);
    assert_eq!(list[2].grade, None);
    assert_eq!(list[3].grade, Some(2));
}

#[test]
fn test_decode_overflow_is_ungraded() {
    let mut list = vec![record(1, Some(5)), record(2, None)];
    parse_csv_file(&mut list, "99999999999999999999,2147483647");
    assert_eq!(list[0].grade, None);
    assert_eq!(list[1].grade, Some(2147483647));
}

#[test]
fn test_decode_caps_at_catalog_length() {
    let mut list = vec![record(1, None), record(2, None)];
    let pos = parse_csv_file(&mut list, "1,2,3,|4");
    assert_eq!(pos, 0);
    assert_eq!(list[0].grade, Some(1));
    assert_eq!(list[1].grade, Some(2));
}

#[test]
fn test_decode_short_line_leaves_rest() {
    let mut list = vec![record(1, None), record(2, Some(6))];
    parse_csv_file(&mut list, "4");
    assert_eq!(list[0].grade, Some(4));
    assert_eq!(list[1].grade, Some(6));
}

#[test]
fn test_round_trip_grades() {
    let original = vec![record(1, Some(3)), record(2, None), record(3, Some(1))];
    let line = get_gradebook_csv(&original, 3);
    assert_eq!(line, String::from("3,0,|1"));
    let mut decoded = vec![record(1, None), record(2, None), record(3, None)];
    let pos = parse_csv_file(&mut decoded, line.as_str());
    assert_eq!(pos, 2);
    for i in 0..3 {
        assert_eq!(decoded[i].grade, original[i].grade);
    }
}

#[test]
fn test_decode_last_cursor_wins() {
    let mut list = vec![record(1, None), record(2, None), record(3, None)];
    let pos = parse_csv_file(&mut list, "|1,2,|3");
    assert_eq!(pos, 2);
    assert_eq!(list[0].grade, Some(1));
    assert_eq!(list[2].grade, Some(3));
}
