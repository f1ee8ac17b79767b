use batrs::combat_damage::sorting::{stable_order, ColumnKey};

fn texts(values: &[&str]) -> Vec<ColumnKey> {
    values.iter().map(|value| ColumnKey::Text(value.to_string())).collect()
}

#[test]
fn verbs_sort_ascending_and_descending() {
    let keys = texts(&["perforate", "bitchslap", "boot"]);
    assert_eq!(stable_order(&keys, false), vec![1, 2, 0]);
    assert_eq!(stable_order(&keys, true), vec![0, 2, 1]);
}

#[test]
fn equal_keys_keep_their_order_in_both_directions() {
    let keys = vec![ColumnKey::Count(2), ColumnKey::Count(1), ColumnKey::Count(2), ColumnKey::Count(1)];
    assert_eq!(stable_order(&keys, false), vec![1, 3, 0, 2]);
    assert_eq!(stable_order(&keys, true), vec![0, 2, 1, 3]);
}

#[test]
fn missing_amounts_sort_last_ascending_and_first_descending() {
    let keys = vec![ColumnKey::Amount(None), ColumnKey::Amount(Some(30)), ColumnKey::Amount(Some(-4))];
    assert_eq!(stable_order(&keys, false), vec![2, 1, 0]);
    assert_eq!(stable_order(&keys, true), vec![0, 1, 2]);
}

#[test]
fn text_order_is_by_code_point() {
    let keys = texts(&["b", "B", "ab", "a", ""]);
    assert_eq!(stable_order(&keys, false), vec![4, 1, 3, 2, 0]);
    assert!(stable_order(&[], false).is_empty());
}
