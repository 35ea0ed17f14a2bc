use candy_machine::inventory::{decrease_count, find_prefix, pick_bucket, total_remaining_buckets};
use candy_machine::types::{ContractError, RemainingToken};

fn bucket(prefix: &str, count: u64) -> RemainingToken {
    RemainingToken { prefix: prefix.to_string(), count }
}

fn counts(tokens: &Vec<RemainingToken>) -> Vec<(String, u64)> {
    tokens.iter().map(|t| (t.prefix.clone(), t.count)).collect()
}

#[test]
fn decrement_keeps_nonempty_bucket() {
    let mut tokens = vec![bucket("a", 2), bucket("b", 1)];
    assert_eq!(decrease_count(&mut tokens, &"a".to_string()), Ok(()));
    assert_eq!(counts(&tokens), vec![("a".to_string(), 1), ("b".to_string(), 1)]);
}

#[test]
fn decrement_removes_emptied_bucket() {
    let mut tokens = vec![bucket("a", 2), bucket("b", 1), bucket("c", 4)];
    assert_eq!(decrease_count(&mut tokens, &"b".to_string()), Ok(()));
    assert_eq!(counts(&tokens), vec![("a".to_string(), 2), ("c".to_string(), 4)]);
    assert!(tokens.iter().all(|t| t.count > 0));
}

#[test]
fn decrement_unknown_prefix_fails() {
    let mut tokens = vec![bucket("a", 2)];
    assert_eq!(decrease_count(&mut tokens, &"z".to_string()), Err(ContractError::PrefixNotFound));
    assert_eq!(counts(&tokens), vec![("a".to_string(), 2)]);
    let mut empty: Vec<RemainingToken> = vec![];
    assert_eq!(decrease_count(&mut empty, &"a".to_string()), Err(ContractError::PrefixNotFound));
}

#[test]
fn pick_and_count_buckets() {
    let tokens = vec![bucket("a", 2), bucket("b", 1)];
    assert_eq!(total_remaining_buckets(&tokens), 2);
    assert_eq!(pick_bucket(&tokens, 1).map(|t| (t.prefix, t.count)), Ok(("b".to_string(), 1)));
    assert_eq!(pick_bucket(&tokens, 2).err(), Some(ContractError::IndexOutOfRange));
    assert_eq!(find_prefix(&tokens, &"b".to_string()), Some(1));
    assert_eq!(find_prefix(&tokens, &"c".to_string()), None);
}
