use metapool::ids::{ends_with, is_valid_account_id};

fn valid(id: &str) -> bool {
    is_valid_account_id(&id.to_string())
}

#[test]
fn account_ids_of_the_chain_are_valid() {
    assert!(valid("ab"));
    assert!(valid("alice.near"));
    assert!(valid("a_b-c.d9"));
    assert!(valid("100"));
    assert!(valid(&"a".repeat(64)));
}

#[test]
fn other_texts_are_no_account_ids() {
    assert!(!valid(""));
    assert!(!valid("a"));
    assert!(!valid(&"a".repeat(65)));
    assert!(!valid("Alice.near"));
    assert!(!valid("al ice"));
    assert!(!valid(".near"));
    assert!(!valid("near-"));
    assert!(!valid("a..b"));
    assert!(!valid("a_-b"));
    assert!(!valid("\u{e4}b.near"));
}

#[test]
fn the_liquidity_pool_entry_is_no_account_id() {
    assert!(!valid("..NSLP.."));
}

#[test]
fn suffixes_are_compared_as_text() {
    let id = "one.poolv1.near".to_string();
    assert!(ends_with(&id, ".poolv1.near"));
    assert!(ends_with(&id, ""));
    assert!(ends_with(&id, "one.poolv1.near"));
    assert!(!ends_with(&id, "zone.poolv1.near"));
    assert!(!ends_with(&id, ".testnet"));
}
