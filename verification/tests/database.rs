use redis_backed::collections::{Collection, List, UniqueSet};
use redis_backed::Database;

#[test]
fn a_store_address_is_accepted_without_a_store() {
    assert!(Database::new("redis://127.0.0.1/").is_ok());
    assert!(Database::new("redis://127.0.0.1:6380/3").is_ok());
    assert!(Database::new("redis://example.invalid/").is_ok());
}

#[test]
fn a_malformed_address_is_rejected_at_once() {
    assert!(Database::new("").is_err());
    assert!(Database::new("not an address").is_err());
    assert!(Database::new("http://127.0.0.1/").is_err());
    assert!(Database::new("redis://127.0.0.1/not-a-number").is_err());
}

#[test]
fn a_rejected_address_gives_a_configuration_error() {
    let error = Database::new("http://127.0.0.1/").err().unwrap();
    assert_eq!(error.kind(), redis::ErrorKind::InvalidClientConfig);
}

#[test]
fn collections_are_bound_to_namespaced_keys() {
    let database = Database::new("redis://127.0.0.1/").unwrap();
    let list: List = database.get("people").unwrap();
    assert_eq!(list.key(), "_orm_list:people");
    let set: UniqueSet = database.get("people").unwrap();
    assert_eq!(set.key(), "_orm_set:people");
}

#[test]
fn two_handles_of_one_name_share_the_key() {
    let database = Database::new("redis://127.0.0.1/").unwrap();
    let first: List = database.get("jobs").unwrap();
    let second: List = database.get("jobs").unwrap();
    assert_eq!(first.key(), second.key());
    assert_eq!(first.push_front(vec![1]), second.push_front(vec![1]));
}
