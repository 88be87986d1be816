use sea_migrations::order::{name_less, sort_order};

fn names(list: &[&str]) -> Vec<String> {
    list.iter().map(|s| s.to_string()).collect()
}

#[test]
fn name_less_is_the_order_of_strings() {
    assert!(name_less("M1", "M2"));
    assert!(!name_less("M2", "M1"));
    assert!(!name_less("M1", "M1"));
    assert!(name_less("", "a"));
    assert!(!name_less("a", ""));
    assert!(!name_less("", ""));
    assert!(name_less("M1", "M10"));
    assert!(name_less("M10", "M2"));
    assert!(name_less("Z", "a"));
    assert!(name_less("M20210101020202DoAThing", "M20210105020202DoAThingAgain"));
}

#[test]
fn name_less_goes_by_bytes() {
    assert!(name_less("z", "é"));
    assert!(name_less("é", "€"));
    assert!(name_less("€", "😀"));
    assert!(!name_less("😀", "€"));
    assert!(name_less("a", "a\u{0}"));
}

#[test]
fn name_less_agrees_with_str() {
    let samples = ["", "a", "ab", "b", "B", "_lock", "M1", "M10", "M2", "é", "z", "😀", "€"];
    for a in samples {
        for b in samples {
            assert_eq!(name_less(a, b), a < b);
        }
    }
}

#[test]
fn three_units_out_of_order() {
    assert_eq!(sort_order(&names(&["M2", "M1", "M3"])), vec![1, 0, 2]);
    assert_eq!(sort_order(&names(&["M3", "M2", "M1"])), vec![2, 1, 0]);
    assert_eq!(sort_order(&names(&["M1", "M2", "M3"])), vec![0, 1, 2]);
    assert_eq!(sort_order(&names(&["M3", "M1", "M2"])), vec![1, 2, 0]);
}

#[test]
fn no_unit_and_one_unit() {
    assert_eq!(sort_order(&names(&[])), Vec::<usize>::new());
    assert_eq!(sort_order(&names(&["only"])), vec![0]);
}

#[test]
fn equal_names_keep_their_order() {
    assert_eq!(sort_order(&names(&["b", "a", "b", "a"])), vec![1, 3, 0, 2]);
    assert_eq!(sort_order(&names(&["x", "x", "x"])), vec![0, 1, 2]);
}

#[test]
fn order_is_that_of_a_stable_sort() {
    let list = names(&["M5", "M10", "", "M1", "é", "M5", "a", "Z", "M2", "M10"]);
    let mut expected: Vec<usize> = (0..list.len()).collect();
    expected.sort_by(|a, b| list[*a].cmp(&list[*b]));
    assert_eq!(sort_order(&list), expected);
}
