use candy_machine::types::{ContractError, Whitelist};
use candy_machine::whitelist::{
    decrease_whitelist_count, delist, is_valid_whitelist, query_whitelist_address, upsert,
};

fn entry(list: &Vec<Whitelist>, addr: &str, round: u64) -> Option<(String, u64, u64)> {
    query_whitelist_address(list, &addr.to_string(), round).map(|w| (w.addr, w.round, w.count))
}

#[test]
fn upsert_inserts_then_replaces() {
    let mut list: Vec<Whitelist> = vec![];
    upsert(&mut list, &"alice".to_string(), 1, 3);
    upsert(&mut list, &"bob".to_string(), 1, 1);
    assert_eq!(entry(&list, "alice", 1), Some(("alice".to_string(), 1, 3)));
    upsert(&mut list, &"alice".to_string(), 1, 5);
    assert_eq!(entry(&list, "alice", 1), Some(("alice".to_string(), 1, 5)));
    assert_eq!(list.len(), 2);
    assert_eq!(entry(&list, "alice", 2), None);
}

#[test]
fn eligibility_needs_positive_count_and_round() {
    let mut list: Vec<Whitelist> = vec![];
    upsert(&mut list, &"alice".to_string(), 5, 1);
    upsert(&mut list, &"bob".to_string(), 5, 0);
    assert!(is_valid_whitelist(&list, &"alice".to_string(), 5, 5));
    assert!(!is_valid_whitelist(&list, &"bob".to_string(), 5, 5));
    assert!(!is_valid_whitelist(&list, &"carol".to_string(), 5, 5));
    // the round-5 entry grants nothing once the configured round is 6
    assert!(!is_valid_whitelist(&list, &"alice".to_string(), 5, 6));
    assert!(!is_valid_whitelist(&list, &"alice".to_string(), 6, 6));
    assert_eq!(entry(&list, "alice", 5), Some(("alice".to_string(), 5, 1)));
}

#[test]
fn delist_removes_or_fails() {
    let mut list: Vec<Whitelist> = vec![];
    upsert(&mut list, &"alice".to_string(), 1, 3);
    assert_eq!(delist(&mut list, &"alice".to_string(), 2), Err(ContractError::AddressNotFound));
    assert_eq!(delist(&mut list, &"alice".to_string(), 1), Ok(()));
    assert_eq!(entry(&list, "alice", 1), None);
    assert_eq!(delist(&mut list, &"alice".to_string(), 1), Err(ContractError::AddressNotFound));
}

#[test]
fn decrement_stops_at_zero() {
    let mut list: Vec<Whitelist> = vec![];
    upsert(&mut list, &"alice".to_string(), 1, 1);
    assert_eq!(decrease_whitelist_count(&mut list, &"alice".to_string(), 1), Ok(()));
    assert_eq!(entry(&list, "alice", 1), Some(("alice".to_string(), 1, 0)));
    assert_eq!(
        decrease_whitelist_count(&mut list, &"alice".to_string(), 1),
        Err(ContractError::NotWhitelisted)
    );
    assert_eq!(entry(&list, "alice", 1), Some(("alice".to_string(), 1, 0)));
    assert_eq!(
        decrease_whitelist_count(&mut list, &"bob".to_string(), 1),
        Err(ContractError::AddressNotFound)
    );
}
