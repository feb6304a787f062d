use omp_core::decimal::{parse_usize, u64_to_decimal};
use omp_core::rules::{RuleEntry, RuleMap};
use omp_core::text::contains_char;

fn rule(name: &str, value: &str) -> RuleEntry {
    RuleEntry { name: name.to_string(), value: value.to_string() }
}

#[test]
fn decimal_text_of_numbers() {
    assert_eq!(u64_to_decimal(0), "0");
    assert_eq!(u64_to_decimal(7), "7");
    assert_eq!(u64_to_decimal(7777), "7777");
    assert_eq!(u64_to_decimal(65535), "65535");
    assert_eq!(u64_to_decimal(u64::MAX), "18446744073709551615");
}

#[test]
fn parse_accepts_what_from_str_accepts() {
    for s in ["0", "2", "+2", "007", "18446744073709551615", "+", "", "-1", "1 ", " 1", "1a", "18446744073709551616", "++1"] {
        assert_eq!(parse_usize(s), s.parse::<usize>().ok(), "input {:?}", s);
    }
}

#[test]
fn decimal_round_trip() {
    for n in [0u64, 1, 9, 10, 99, 100, 12345, u32::MAX as u64] {
        assert_eq!(parse_usize(&u64_to_decimal(n)), Some(n as usize));
    }
}

#[test]
fn contains_char_finds_characters() {
    assert!(contains_char("a b", ' '));
    assert!(!contains_char("ab", ' '));
    assert!(contains_char("x\0", '\0'));
}

#[test]
fn rule_map_insert_and_get() {
    let mut m = RuleMap::new();
    assert_eq!(m.len(), 0);
    assert_eq!(m.get("mapname"), None);
    m.insert("mapname".to_string(), "San Andreas".to_string());
    m.insert("version".to_string(), "0.3.7".to_string());
    m.insert("mapname".to_string(), "Los Santos".to_string());
    assert_eq!(m.len(), 2);
    assert_eq!(m.get("mapname"), Some("Los Santos".to_string()));
    assert_eq!(m.get("version"), Some("0.3.7".to_string()));
    assert_eq!(m.get("weather"), None);
}

#[test]
fn rule_map_last_rule_wins() {
    let rules = vec![rule("a", "1"), rule("b", "2"), rule("a", "3")];
    let m = RuleMap::from_rules(&rules);
    assert_eq!(m.len(), 2);
    assert_eq!(m.get("a"), Some("3".to_string()));
    assert_eq!(m.get("b"), Some("2".to_string()));
    let mut pairs = m.into_pairs();
    pairs.sort();
    assert_eq!(pairs, vec![("a".to_string(), "3".to_string()), ("b".to_string(), "2".to_string())]);
}

#[test]
fn rule_map_from_no_rules_is_empty() {
    let m = RuleMap::from_rules(&Vec::new());
    assert_eq!(m.len(), 0);
    assert!(m.into_pairs().is_empty());
}
