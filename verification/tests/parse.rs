use near_drop::bindings::{copy_key, same_key, KeyRegistry};
use near_drop::parse::parse_drop_id;

#[test]
fn parse_drop_id_reads_decimal_numbers() {
    assert_eq!(parse_drop_id("0"), Some(0));
    assert_eq!(parse_drop_id("7"), Some(7));
    assert_eq!(parse_drop_id("007"), Some(7));
    assert_eq!(parse_drop_id("+42"), Some(42));
    assert_eq!(parse_drop_id("4294967295"), Some(u32::MAX));
    assert_eq!(parse_drop_id("0000000004294967295"), Some(u32::MAX));
}

#[test]
fn parse_drop_id_rejects_everything_else() {
    for msg in [
        "", "+", "-", "-1", "++1", "+-1", " 1", "1 ", "1_000", "0x10", "1.0", "4294967296",
        "99999999999999999999", "12a", "a12", "١٢", "1\u{661}", "１",
    ] {
        assert_eq!(parse_drop_id(msg), None, "{msg:?}");
    }
}

#[test]
fn parse_drop_id_agrees_with_the_standard_parser() {
    for msg in ["0", "+0", "000", "12", "+12", "4294967295", "4294967296", "", "+", "1+", "é"] {
        assert_eq!(parse_drop_id(msg), msg.parse::<u32>().ok(), "{msg:?}");
    }
}

#[test]
fn keys_are_compared_and_copied_by_their_bytes() {
    assert!(same_key(&vec![0, 1, 2], &vec![0, 1, 2]));
    assert!(same_key(&vec![], &vec![]));
    assert!(!same_key(&vec![0, 1, 2], &vec![0, 1, 3]));
    assert!(!same_key(&vec![0, 1, 2], &vec![0, 1]));
    assert_eq!(copy_key(&vec![9, 8, 7]), vec![9, 8, 7]);
}

#[test]
fn key_registry_binds_and_lets_go() {
    let mut registry = KeyRegistry::new();
    assert_eq!(registry.get(&vec![1]), None);
    assert_eq!(registry.insert(vec![1], 10), None);
    assert_eq!(registry.insert(vec![2], 10), None);
    assert_eq!(registry.insert(vec![3], 11), None);
    assert_eq!(registry.insert(vec![3], 12), Some(11));
    assert_eq!(registry.get(&vec![3]), Some(12));
    assert!(registry.contains_key(&vec![2]));
    assert_eq!(registry.remove(&vec![2]), Some(10));
    assert_eq!(registry.remove(&vec![2]), None);
    assert!(!registry.contains_key(&vec![2]));
    registry.remove_drop(12);
    assert_eq!(registry.get(&vec![3]), None);
    assert_eq!(registry.get(&vec![1]), Some(10));
}
