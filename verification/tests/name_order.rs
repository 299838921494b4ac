use ractor::name_order::{insert_sorted, sort_names, str_lt};

#[test]
fn names_compare_as_strings_do() {
    let cases = ["", "a", "b", "ab", "abc", "B", "é", "z", "ä", "aé"];
    for x in cases {
        for y in cases {
            assert_eq!(x.to_string() < y.to_string(), str_lt(&x.to_string(), &y.to_string()), "{x} {y}");
        }
    }
}

#[test]
fn sorting_names_sorts_and_dedups() {
    let v: Vec<String> = ["b", "a", "c", "a", "", "b"].iter().map(|s| s.to_string()).collect();
    let mut expected = v.clone();
    expected.sort_unstable();
    expected.dedup();
    assert_eq!(expected, sort_names(v));
}

#[test]
fn inserting_a_present_name_changes_nothing() {
    let mut names = vec!["a".to_string(), "c".to_string()];
    assert!(insert_sorted(&mut names, "b".to_string()));
    assert!(!insert_sorted(&mut names, "c".to_string()));
    assert_eq!(vec!["a".to_string(), "b".to_string(), "c".to_string()], names);
}
