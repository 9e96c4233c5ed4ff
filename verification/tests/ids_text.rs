use inventory_core::id::{parse_entity_id, EntityId};
use inventory_core::text::{trim_str, trimmed_eq};

#[test]
fn entity_id_parses_exact_value() {
    let id = parse_entity_id("000000070000000000000063").expect("well-formed id");
    assert_eq!(id, EntityId { hi: 7, lo: 99 });
    let max = parse_entity_id("ffffffffffffffffffffffff").expect("well-formed id");
    assert_eq!(
        max,
        EntityId {
            hi: u32::MAX,
            lo: u64::MAX
        }
    );
}

#[test]
fn entity_id_rejects_malformed_input() {
    assert!(parse_entity_id("").is_none());
    assert!(parse_entity_id("0000000700000000000063").is_none()); // too short
    assert!(parse_entity_id("00000007000000000000006311").is_none()); // too long
    assert!(parse_entity_id("00000007000000000000006g").is_none()); // non-hex
    assert!(parse_entity_id("00000007000000000000006F").is_none()); // uppercase
    assert!(parse_entity_id("0000000 0000000000000063").is_none()); // space
}

#[test]
fn trim_removes_surrounding_whitespace_only() {
    assert_eq!(trim_str(" \tDrill \r\n"), "Drill");
    assert_eq!(trim_str("Drill"), "Drill");
    assert_eq!(trim_str("  "), "");
    assert_eq!(trim_str(""), "");
    assert_eq!(trim_str(" power drill "), "power drill");
}

#[test]
fn trimmed_comparison() {
    assert!(trimmed_eq("Drill", " Drill "));
    assert!(trimmed_eq(" a b ", "a b"));
    assert!(!trimmed_eq("Drill", "drill"));
    assert!(!trimmed_eq("a b", "ab"));
}
