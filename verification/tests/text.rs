use trdelnik::text::{insert_sorted, less_than, same_text};

#[test]
fn strings_compare_by_code_points() {
    assert!(less_than("abc", "abd"));
    assert!(less_than("ab", "abc"));
    assert!(!less_than("abc", "ab"));
    assert!(!less_than("abc", "abc"));
    assert!(less_than("", "a"));
    assert!(less_than("Z", "a"));
    assert!(less_than("escrow", "escrow_pda"));
    assert_eq!(less_than("mint", "escrow"), "mint" < "escrow");
}

#[test]
fn insertion_keeps_order_and_drops_repeats() {
    let mut names: Vec<String> = Vec::new();
    for n in ["sender", "escrow", "mint", "escrow", "recipient", "mint", "a"] {
        insert_sorted(&mut names, n);
    }
    assert_eq!(names, vec!["a", "escrow", "mint", "recipient", "sender"]);
}

#[test]
fn texts_are_equal_only_when_identical() {
    assert!(same_text("abc", "abc"));
    assert!(!same_text("abc", "abd"));
    assert!(!same_text("abc", "ab"));
    assert!(same_text("", ""));
}
