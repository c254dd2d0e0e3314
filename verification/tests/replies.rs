use redis::{ErrorKind, RedisError};
use redis_backed::collections::{Key, List, UniqueSet};
use redis_backed::Error;

fn broken() -> RedisError {
    RedisError::from((ErrorKind::ResponseError, "connection lost"))
}

fn is_transport<A>(result: Result<A, Error>) -> bool {
    match result {
        Err(Error::RedisError(e)) => e == broken(),
        _ => false,
    }
}

#[test]
fn pop_replies_pass_the_element_on() {
    assert_eq!(List::pop_front_reply(Ok(Some(vec![1, 2]))).unwrap(), Some(vec![1, 2]));
    assert_eq!(List::pop_back_reply(Ok(Some(vec![3]))).unwrap(), Some(vec![3]));
}

#[test]
fn pop_on_an_empty_list_is_no_error() {
    assert_eq!(List::pop_front_reply(Ok(None)).unwrap(), None);
    assert_eq!(List::pop_back_reply(Ok(None)).unwrap(), None);
}

#[test]
fn index_of_a_missing_element_is_an_error() {
    assert!(matches!(List::index_reply(Ok(None)), Err(Error::NotFound)));
    assert_eq!(List::index_reply(Ok(Some(vec![7]))).unwrap(), vec![7]);
}

#[test]
fn insert_reads_minus_one_as_pivot_not_found() {
    assert_eq!(List::insert_before_reply(Ok(-1)).unwrap(), false);
    assert_eq!(List::insert_after_reply(Ok(-1)).unwrap(), false);
    assert_eq!(List::insert_before_reply(Ok(4)).unwrap(), true);
    assert_eq!(List::insert_after_reply(Ok(1)).unwrap(), true);
}

#[test]
fn insert_reads_zero_as_no_list_and_nothing_inserted() {
    assert_eq!(List::insert_before_reply(Ok(0)).unwrap(), false);
    assert_eq!(List::insert_after_reply(Ok(0)).unwrap(), false);
}

#[test]
fn insert_reads_only_a_length_as_inserted() {
    assert_eq!(List::insert_before_reply(Ok(2)).unwrap(), true);
    assert_eq!(List::insert_after_reply(Ok(4294967295)).unwrap(), true);
    assert_eq!(List::insert_before_reply(Ok(i64::MIN)).unwrap(), false);
    assert_eq!(List::insert_after_reply(Ok(-2)).unwrap(), false);
}

#[test]
fn counts_pass_through() {
    assert_eq!(List::len_reply(Ok(0)).unwrap(), 0);
    assert_eq!(List::len_reply(Ok(17)).unwrap(), 17);
    assert_eq!(List::remove_reply(Ok(3)).unwrap(), 3);
    assert_eq!(UniqueSet::count_reply(Ok(0)).unwrap(), 0);
    assert_eq!(UniqueSet::count_reply(Ok(4294967295)).unwrap(), 4294967295);
}

#[test]
fn ranges_and_members_pass_through_in_order() {
    let items = vec![vec![1], vec![2], vec![3]];
    assert_eq!(List::range_reply(Ok(items.clone())).unwrap(), items);
    assert_eq!(List::range_reply(Ok(Vec::new())).unwrap(), Vec::<Vec<u8>>::new());
    assert_eq!(UniqueSet::to_vec_reply(Ok(items.clone())).unwrap(), items);
}

#[test]
fn acknowledgements_read_as_unit() {
    assert!(List::set_index_reply(Ok("OK".to_string())).is_ok());
    assert!(List::trim_reply(Ok("OK".to_string())).is_ok());
    assert!(List::push_front_reply(Ok(())).is_ok());
    assert!(List::push_back_reply(Ok(())).is_ok());
}

#[test]
fn set_flags_are_true_for_one_only() {
    assert_eq!(UniqueSet::add_reply(Ok(1)).unwrap(), true);
    assert_eq!(UniqueSet::add_reply(Ok(0)).unwrap(), false);
    assert_eq!(UniqueSet::remove_reply(Ok(1)).unwrap(), true);
    assert_eq!(UniqueSet::remove_reply(Ok(0)).unwrap(), false);
    assert_eq!(UniqueSet::contains_reply(Ok(1)).unwrap(), true);
    assert_eq!(UniqueSet::contains_reply(Ok(0)).unwrap(), false);
    assert_eq!(UniqueSet::add_reply(Ok(2)).unwrap(), false);
}

#[test]
fn removing_a_key_succeeds_whatever_was_deleted() {
    assert!(<List as Key<_>>::remove_reply(Ok(0)).is_ok());
    assert!(<List as Key<_>>::remove_reply(Ok(1)).is_ok());
    assert!(<UniqueSet as Key<_>>::remove_reply(Ok(0)).is_ok());
}

#[test]
fn a_transport_failure_is_the_error_of_every_list_operation() {
    assert!(is_transport(List::pop_front_reply(Err(broken()))));
    assert!(is_transport(List::pop_back_reply(Err(broken()))));
    assert!(is_transport(List::index_reply(Err(broken()))));
    assert!(is_transport(List::set_index_reply(Err(broken()))));
    assert!(is_transport(List::range_reply(Err(broken()))));
    assert!(is_transport(List::trim_reply(Err(broken()))));
    assert!(is_transport(List::push_front_reply(Err(broken()))));
    assert!(is_transport(List::push_back_reply(Err(broken()))));
    assert!(is_transport(List::len_reply(Err(broken()))));
    assert!(is_transport(List::remove_reply(Err(broken()))));
    assert!(is_transport(List::insert_before_reply(Err(broken()))));
    assert!(is_transport(List::insert_after_reply(Err(broken()))));
}

#[test]
fn a_transport_failure_is_the_error_of_every_set_operation() {
    assert!(is_transport(UniqueSet::add_reply(Err(broken()))));
    assert!(is_transport(UniqueSet::count_reply(Err(broken()))));
    assert!(is_transport(UniqueSet::remove_reply(Err(broken()))));
    assert!(is_transport(UniqueSet::contains_reply(Err(broken()))));
    assert!(is_transport(UniqueSet::to_vec_reply(Err(broken()))));
    assert!(is_transport(<UniqueSet as Key<_>>::remove_reply(Err(broken()))));
}

#[test]
fn outside_errors_convert_by_kind() {
    let transport = Error::from(broken());
    assert!(matches!(transport, Error::RedisError(ref e) if *e == broken()));
    let failure = serde_cbor::from_slice::<u8>(&[]).unwrap_err();
    let text = failure.to_string();
    let codec = Error::from(failure);
    assert!(matches!(codec, Error::SerializationError(ref e) if e.to_string() == text));
}
