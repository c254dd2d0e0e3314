use redis_backed::collections::{
    GenericWatchEvent, KindEvent, List, ListEvent, SetEvent, UniqueSet, WatchEvent,
};
use redis_backed::collections::watcher::channel_name;
use redis_backed::collections::Collection;
use redis_backed::Error;

#[test]
fn del_is_the_removal_of_a_list_key() {
    let event = WatchEvent::<ListEvent>::from_str("del").unwrap();
    assert_eq!(event, WatchEvent::Generic(GenericWatchEvent::Remove));
}

#[test]
fn del_is_the_removal_of_a_set_key() {
    let event = WatchEvent::<SetEvent>::from_str("del").unwrap();
    assert!(matches!(event, WatchEvent::Generic(GenericWatchEvent::Remove)));
}

#[test]
fn a_set_rejects_every_other_payload() {
    match WatchEvent::<SetEvent>::from_str("sadd") {
        Err(Error::InvalidNotification { collection, notification }) => {
            assert_eq!(collection, "Set");
            assert_eq!(notification, "sadd");
        }
        other => panic!("unexpected outcome: {:?}", other),
    }
}

#[test]
fn a_set_rejects_the_empty_payload_and_near_misses() {
    for payload in ["", "DEL", "del ", " del", "delete", "de"] {
        match WatchEvent::<SetEvent>::from_str(payload) {
            Err(Error::InvalidNotification { collection, notification }) => {
                assert_eq!(collection, "Set");
                assert_eq!(notification, payload);
            }
            other => panic!("unexpected outcome: {:?}", other),
        }
    }
}

#[test]
fn a_set_event_cannot_be_decoded() {
    match SetEvent::from_str("del") {
        Err(Error::InvalidNotification { collection, notification }) => {
            assert_eq!(collection, "Set");
            assert_eq!(notification, "del");
        }
        other => panic!("unexpected outcome: {:?}", other),
    }
}

#[test]
fn a_list_takes_every_other_payload_as_its_event() {
    assert_eq!(
        WatchEvent::<ListEvent>::from_str("lpush").unwrap(),
        WatchEvent::TypeSpecific(ListEvent::E)
    );
    assert_eq!(
        WatchEvent::<ListEvent>::from_str("").unwrap(),
        WatchEvent::TypeSpecific(ListEvent::E)
    );
    assert_eq!(ListEvent::from_str("del").unwrap(), ListEvent::E);
}

#[test]
fn the_channel_is_named_by_database_and_key() {
    assert_eq!(channel_name(0, "_orm_list:people"), "__keyspace@0__:_orm_list:people");
    let set = UniqueSet::get("people".to_string()).unwrap();
    assert_eq!(channel_name(3, &set.key()), "__keyspace@3__:_orm_set:people");
    let list = List::get("queue".to_string()).unwrap();
    assert_eq!(channel_name(15, &list.key()), "__keyspace@15__:_orm_list:queue");
}

#[test]
fn the_database_number_is_written_in_decimal() {
    assert_eq!(channel_name(7, "k"), "__keyspace@7__:k");
    assert_eq!(channel_name(10, "k"), "__keyspace@10__:k");
    assert_eq!(channel_name(1024, "k"), "__keyspace@1024__:k");
    assert_eq!(channel_name(9007199254740993, "k"), "__keyspace@9007199254740993__:k");
    assert_eq!(channel_name(-1, "k"), "__keyspace@-1__:k");
    assert_eq!(channel_name(i64::MAX, "k"), "__keyspace@9223372036854775807__:k");
    assert_eq!(channel_name(i64::MIN, "k"), "__keyspace@-9223372036854775808__:k");
    assert_eq!(channel_name(0, ""), "__keyspace@0__:");
}

#[test]
fn decimal_agrees_with_the_standard_formatting() {
    for n in [0i64, 1, 9, 10, 11, 99, 100, 101, 12345, -5, -10, -99999, 4294967296] {
        let mut out = String::from("x");
        redis_backed::decimal::push_decimal(&mut out, n);
        assert_eq!(out, format!("x{}", n));
    }
    let mut digits = String::new();
    redis_backed::decimal::push_digits(&mut digits, u64::MAX);
    assert_eq!(digits, "18446744073709551615");
}
