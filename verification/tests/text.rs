use record_persist::text::{
    child_name, contains_text, decimal, digit, file_name, indexed_name, joined, listed, str_eq,
};

#[test]
fn file_names_are_nine_digits_and_the_extension() {
    assert_eq!(file_name(0), "000000000.parquet");
    assert_eq!(file_name(7), "000000007.parquet");
    assert_eq!(file_name(42), "000000042.parquet");
    assert_eq!(file_name(123456789), "123456789.parquet");
    assert_eq!(file_name(999999999), "999999999.parquet");
}

#[test]
fn file_names_of_large_numbers_are_not_cut() {
    assert_eq!(file_name(1000000000), "1000000000.parquet");
    assert_eq!(file_name(1234567890), "1234567890.parquet");
}

#[test]
fn decimal_notation() {
    assert_eq!(decimal(0), "0");
    assert_eq!(decimal(9), "9");
    assert_eq!(decimal(10), "10");
    assert_eq!(decimal(305), "305");
    assert_eq!(decimal(usize::MAX), usize::MAX.to_string());
    for d in 0..10 {
        assert_eq!(digit(d), d.to_string());
    }
}

#[test]
fn child_names() {
    assert_eq!(child_name(None, "price"), "price");
    assert_eq!(child_name(Some("tob"), "price"), "tob_price");
    assert_eq!(child_name(Some(""), "price"), "_price");
    assert_eq!(indexed_name(Some("x"), 1), "x_1");
    assert_eq!(indexed_name(None, 3), "3");
    assert_eq!(indexed_name(Some("a"), 31), "a_31");
}

#[test]
fn comparing_and_searching_texts() {
    assert!(str_eq("", ""));
    assert!(str_eq("rfq_match", "rfq_match"));
    assert!(!str_eq("rfq_match", "rfq_matches"));
    assert!(!str_eq("abc", "abd"));
    assert!(str_eq("gr\u{fc}n", "gr\u{fc}n"));
    let texts = vec!["a".to_string(), "bc".to_string()];
    assert!(contains_text(&texts, "bc"));
    assert!(!contains_text(&texts, "b"));
    assert!(!contains_text(&Vec::new(), ""));
}

#[test]
fn joining_and_listing() {
    assert_eq!(joined("ab", "cd"), "abcd");
    assert_eq!(joined("", ""), "");
    assert_eq!(listed(&Vec::new()), "");
    assert_eq!(listed(&vec!["a".to_string()]), "\"a\"");
    assert_eq!(listed(&vec!["a".to_string(), "b\"c".to_string()]), "\"a\", \"b\\\"c\"");
}
