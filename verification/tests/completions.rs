use femto_core::complete::{cap_completions, completion_matches, sort_strings};

fn names(items: &[&str]) -> Vec<String> {
    items.iter().map(|s| s.to_string()).collect()
}

#[test]
fn completion_filter_is_case_insensitive() {
    let kept = completion_matches(names(&["Readme.md", "main.rs", "REPORT.txt"]), "re");
    assert_eq!(kept, names(&["Readme.md", "REPORT.txt"]));
}

#[test]
fn completion_filter_empty_partial_keeps_all() {
    let kept = completion_matches(names(&["b", "a"]), "");
    assert_eq!(kept, names(&["b", "a"]));
}

#[test]
fn completion_filter_keeps_original_order() {
    let kept = completion_matches(names(&["abz", "ab", "zz", "ABC"]), "ab");
    assert_eq!(kept, names(&["abz", "ab", "ABC"]));
}

#[test]
fn completion_filter_with_no_match_is_empty() {
    let kept = completion_matches(names(&["one", "two"]), "zzz");
    assert!(kept.is_empty());
}

#[test]
fn sort_strings_orders_lexicographically() {
    let mut v = names(&["pear", "apple", "Banana"]);
    sort_strings(&mut v);
    // Byte-wise order puts the capital first.
    assert_eq!(v, names(&["Banana", "apple", "pear"]));
}

#[test]
fn cap_completions_trims_to_one_hundred() {
    let mut v: Vec<String> = (0..150).map(|i| format!("n{:03}", i)).collect();
    sort_strings(&mut v);
    cap_completions(&mut v);
    assert_eq!(v.len(), 100);
    assert_eq!(v[0], "n000");
    assert_eq!(v[99], "n099");
    let mut small = names(&["a", "b"]);
    cap_completions(&mut small);
    assert_eq!(small, names(&["a", "b"]));
}
