use guardrails_core::string_map::StringMap;
use guardrails_core::text::{append_signed_decimal, join};

#[test]
fn map_replaces_values_and_keeps_the_order_of_keys() {
    let mut map: StringMap<u32> = StringMap::new();
    assert!(map.is_empty());
    assert_eq!(map.insert("b".to_string(), 1), None);
    assert_eq!(map.insert("a".to_string(), 2), None);
    assert_eq!(map.insert("b".to_string(), 3), Some(1));
    assert_eq!(map.len(), 2);
    assert_eq!(map.get(&"b".to_string()), Some(&3));
    assert_eq!(map.get(&"a".to_string()), Some(&2));
    assert_eq!(map.get(&"c".to_string()), None);
    assert_eq!(map.entry(0), (&"b".to_string(), &3));
    assert_eq!(map.entry(1), (&"a".to_string(), &2));
}

#[test]
fn joined_parts_have_separators_between_them() {
    let parts = |texts: &[&str]| -> Vec<String> { texts.iter().map(|t| t.to_string()).collect() };
    assert_eq!(join(&parts(&[]), ", "), "");
    assert_eq!(join(&parts(&["a"]), ", "), "a");
    assert_eq!(join(&parts(&["a", "", "b"]), ", "), "a, , b");
}

#[test]
fn decimals_are_written_at_the_end() {
    let mut text = "n=".to_string();
    append_signed_decimal(&mut text, -2_147_483_648);
    assert_eq!(text, "n=-2147483648");
    let mut zero = String::new();
    append_signed_decimal(&mut zero, 0);
    assert_eq!(zero, "0");
}
