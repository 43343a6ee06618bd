use btop_gui::order::{compare_keys, stable_sort_positions, KeyOrder};
use btop_gui::text::{chars_of, contains, decimal_string, same_text, to_lowercase};

#[test]
fn decimal_strings() {
    assert_eq!(decimal_string(0), "0");
    assert_eq!(decimal_string(7), "7");
    assert_eq!(decimal_string(10), "10");
    assert_eq!(decimal_string(4294967295), "4294967295");
    assert_eq!(decimal_string(u64::MAX), u64::MAX.to_string());
}

#[test]
fn substring_search() {
    assert!(contains("chrome", "hro"));
    assert!(contains("chrome", ""));
    assert!(contains("", ""));
    assert!(!contains("", "a"));
    assert!(!contains("abc", "abcd"));
    assert!(contains("進程管理器", "管理"));
    assert!(!contains("abc", "ac"));
}

#[test]
fn lowercase_and_equality() {
    assert_eq!(to_lowercase("NVMe Ä"), "nvme ä");
    assert!(same_text("SYSTEM", "SYSTEM"));
    assert!(!same_text("SYSTEM", "System"));
    assert_eq!(chars_of("héllo"), vec!['h', 'é', 'l', 'l', 'o']);
}

#[test]
fn key_comparison() {
    assert_eq!(compare_keys(&vec![1, 2], &vec![1, 3]), KeyOrder::Less);
    assert_eq!(compare_keys(&vec![1, 2], &vec![1]), KeyOrder::Greater);
    assert_eq!(compare_keys(&vec![], &vec![]), KeyOrder::Equal);
    assert_eq!(compare_keys(&vec![5], &vec![5]), KeyOrder::Equal);
}

#[test]
fn stable_sort_of_positions() {
    let keys = vec![vec![3], vec![1], vec![3], vec![2]];
    assert_eq!(stable_sort_positions(&keys, false), vec![1, 3, 0, 2]);
    assert_eq!(stable_sort_positions(&keys, true), vec![0, 2, 3, 1]);
    assert_eq!(stable_sort_positions(&vec![vec![3], vec![3]], true), vec![0, 1]);
    assert_eq!(stable_sort_positions(&vec![], false), Vec::<usize>::new());
}
