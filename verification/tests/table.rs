use pokegrade::average::Average;
use pokegrade::table::AvgValuePerGrade;

#[test]
fn test_table_accumulates_per_key() {
    let mut t = AvgValuePerGrade::new(3);
    t.add_value(1, 4, 10);
    t.add_value(1, 4, 20);
    t.add_value(1, 7, 5);
    t.add_value(2, 4, 1);
    let r = t.get_result();
    assert_eq!(r.len(), 3);
    assert_eq!(r[0].len(), 0);
    assert_eq!(r[1], vec![(4, Average { total: 30, count: 2 }), (7, Average { total: 5, count: 1 })]);
    assert_eq!(r[2], vec![(4, Average { total: 1, count: 1 })]);
}

#[test]
fn test_table_no_zero_count_keys() {
    let mut t = AvgValuePerGrade::new(2);
    t.add_value(0, 9, -3);
    let r = t.get_result();
    for bucket in &r {
        for e in bucket {
            assert!(e.1.count >= 1);
        }
    }
    assert_eq!(r[0].len(), 1);
    assert_eq!(r[1].len(), 0);
}

#[test]
fn test_table_keeps_first_contribution_order() {
    let mut t = AvgValuePerGrade::new(1);
    t.add_value(0, 5, 1);
    t.add_value(0, 2, 1);
    t.add_value(0, 5, 1);
    t.add_value(0, 8, 1);
    let r = t.get_result();
    let keys: Vec<usize> = r[0].iter().map(|e| e.0).collect();
    assert_eq!(keys, vec![5, 2, 8]);
}
