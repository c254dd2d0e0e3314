use redis_backed::collections::{Collection, Key, List, UniqueSet};
use redis_backed::command::{Arg, Command, End, Place};

fn people() -> List {
    List::get("people".to_string()).unwrap()
}

fn crowd() -> UniqueSet {
    UniqueSet::get("people".to_string()).unwrap()
}

fn key() -> Arg {
    Arg::Text("_orm_list:people".to_string())
}

fn set_key() -> Arg {
    Arg::Text("_orm_set:people".to_string())
}

#[test]
fn push_front_appends_at_the_tail() {
    let command = people().push_front(vec![1, 2, 3]);
    assert_eq!(
        command,
        Command::Push { key: "_orm_list:people".to_string(), end: End::Tail, value: vec![1, 2, 3] }
    );
    assert_eq!(command.name(), "RPUSH");
    assert_eq!(command.args(), vec![key(), Arg::Bytes(vec![1, 2, 3])]);
}

#[test]
fn push_back_inserts_at_the_head() {
    let command = people().push_back(vec![9]);
    assert_eq!(
        command,
        Command::Push { key: "_orm_list:people".to_string(), end: End::Head, value: vec![9] }
    );
    assert_eq!(command.name(), "LPUSH");
    assert_eq!(command.args(), vec![key(), Arg::Bytes(vec![9])]);
}

#[test]
fn pop_front_takes_from_the_tail() {
    let command = people().pop_front();
    assert_eq!(command, Command::Pop { key: "_orm_list:people".to_string(), end: End::Tail });
    assert_eq!(command.name(), "RPOP");
    assert_eq!(command.args(), vec![key()]);
}

#[test]
fn pop_back_takes_from_the_head() {
    let command = people().pop_back();
    assert_eq!(command, Command::Pop { key: "_orm_list:people".to_string(), end: End::Head });
    assert_eq!(command.name(), "LPOP");
    assert_eq!(command.args(), vec![key()]);
}

#[test]
fn index_sends_the_index_as_it_is() {
    let command = people().index(-1);
    assert_eq!(command.name(), "LINDEX");
    assert_eq!(command.args(), vec![key(), Arg::Int(-1)]);
    assert_eq!(people().index(7).args(), vec![key(), Arg::Int(7)]);
}

#[test]
fn set_index_sends_index_then_value() {
    let command = people().set_index(2, vec![5, 6]);
    assert_eq!(command.name(), "LSET");
    assert_eq!(command.args(), vec![key(), Arg::Int(2), Arg::Bytes(vec![5, 6])]);
}

#[test]
fn range_sends_start_then_stop() {
    let command = people().range(0, 10);
    assert_eq!(command.name(), "LRANGE");
    assert_eq!(command.args(), vec![key(), Arg::Int(0), Arg::Int(10)]);
}

#[test]
fn trim_sends_start_then_stop() {
    let command = people().trim(1, -2);
    assert_eq!(command.name(), "LTRIM");
    assert_eq!(command.args(), vec![key(), Arg::Int(1), Arg::Int(-2)]);
}

#[test]
fn len_sends_the_key_alone() {
    let command = people().len();
    assert_eq!(command.name(), "LLEN");
    assert_eq!(command.args(), vec![key()]);
}

#[test]
fn remove_sends_count_then_item() {
    let list = &people();
    let command = list.remove(2, vec![4]);
    assert_eq!(command.name(), "LREM");
    assert_eq!(command.args(), vec![key(), Arg::Int(2), Arg::Bytes(vec![4])]);
    assert_eq!(list.remove(-3, vec![4]).args(), vec![key(), Arg::Int(-3), Arg::Bytes(vec![4])]);
    assert_eq!(list.remove(0, vec![4]).args(), vec![key(), Arg::Int(0), Arg::Bytes(vec![4])]);
}

#[test]
fn insert_before_names_the_side() {
    let command = people().insert_before(vec![1], vec![2]);
    assert_eq!(
        command,
        Command::Insert {
            key: "_orm_list:people".to_string(),
            place: Place::Before,
            pivot: vec![1],
            value: vec![2],
        }
    );
    assert_eq!(command.name(), "LINSERT");
    assert_eq!(
        command.args(),
        vec![key(), Arg::Text("BEFORE".to_string()), Arg::Bytes(vec![1]), Arg::Bytes(vec![2])]
    );
}

#[test]
fn insert_after_names_the_side() {
    let command = people().insert_after(vec![1], vec![2]);
    assert_eq!(command.name(), "LINSERT");
    assert_eq!(
        command.args(),
        vec![key(), Arg::Text("AFTER".to_string()), Arg::Bytes(vec![1]), Arg::Bytes(vec![2])]
    );
}

#[test]
fn set_commands_have_their_names_and_arguments() {
    let add = crowd().add(vec![1]);
    assert_eq!(add.name(), "SADD");
    assert_eq!(add.args(), vec![set_key(), Arg::Bytes(vec![1])]);
    let set = &crowd();
    let remove = set.remove(vec![1]);
    assert_eq!(remove.name(), "SREM");
    assert_eq!(remove.args(), vec![set_key(), Arg::Bytes(vec![1])]);
    let contains = crowd().contains(vec![1]);
    assert_eq!(contains.name(), "SISMEMBER");
    assert_eq!(contains.args(), vec![set_key(), Arg::Bytes(vec![1])]);
    let count = crowd().count();
    assert_eq!(count.name(), "SCARD");
    assert_eq!(count.args(), vec![set_key()]);
    let members = crowd().to_vec();
    assert_eq!(members.name(), "SMEMBERS");
    assert_eq!(members.args(), vec![set_key()]);
}

#[test]
fn removing_a_key_deletes_the_namespaced_key() {
    let command = Key::remove(people());
    assert_eq!(command, Command::Delete { key: "_orm_list:people".to_string() });
    assert_eq!(command.name(), "DEL");
    assert_eq!(command.args(), vec![key()]);
    let command = Key::remove(crowd());
    assert_eq!(command.key(), "_orm_set:people");
    assert_eq!(command.args(), vec![set_key()]);
}

#[test]
fn a_command_knows_its_key() {
    assert_eq!(people().len().key(), "_orm_list:people");
    assert_eq!(crowd().count().key(), "_orm_set:people");
    assert_eq!(people().range(0, 1).key(), "_orm_list:people");
}

#[test]
fn the_name_is_kept_verbatim_behind_the_namespace() {
    let list = List::get("a b:c/_orm_set:".to_string()).unwrap();
    assert_eq!(list.key(), "_orm_list:a b:c/_orm_set:");
    let empty = UniqueSet::get(String::new()).unwrap();
    assert_eq!(empty.key(), "_orm_set:");
}
