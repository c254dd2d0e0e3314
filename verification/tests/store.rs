use redis_backed::command::{Command, End, Place};
use redis_backed::memory::{copy_bytes, same_bytes, MemoryStore, Reply};
use redis_backed::store::Fault;

fn push(store: &mut MemoryStore, key: &str, end: End, value: &[u8]) -> Reply {
    store.execute(&Command::Push { key: key.to_owned(), end, value: value.to_vec() })
}

fn all(store: &mut MemoryStore, key: &str) -> Reply {
    store.execute(&Command::Range { key: key.to_owned(), start: 0, stop: -1 })
}

fn bytes(items: &[&[u8]]) -> Vec<Vec<u8>> {
    items.iter().map(|item| item.to_vec()).collect()
}

#[test]
fn a_push_answers_with_the_new_length() {
    let mut store = MemoryStore::new();
    assert_eq!(push(&mut store, "k", End::Tail, b"a"), Reply::Integer(1));
    assert_eq!(push(&mut store, "k", End::Tail, b"b"), Reply::Integer(2));
    assert_eq!(push(&mut store, "k", End::Head, b"c"), Reply::Integer(3));
    assert_eq!(all(&mut store, "k"), Reply::Items(bytes(&[b"c", b"a", b"b"])));
    assert_eq!(store.execute(&Command::Len { key: "k".to_owned() }), Reply::Integer(3));
    assert_eq!(store.execute(&Command::Len { key: "other".to_owned() }), Reply::Integer(0));
}

#[test]
fn a_pop_answers_with_the_element_of_its_end() {
    let mut store = MemoryStore::new();
    push(&mut store, "k", End::Tail, b"a");
    push(&mut store, "k", End::Tail, b"b");
    push(&mut store, "k", End::Tail, b"c");
    let tail = Command::Pop { key: "k".to_owned(), end: End::Tail };
    let head = Command::Pop { key: "k".to_owned(), end: End::Head };
    assert_eq!(store.execute(&tail), Reply::Item(Some(b"c".to_vec())));
    assert_eq!(store.execute(&head), Reply::Item(Some(b"a".to_vec())));
    assert_eq!(store.execute(&head), Reply::Item(Some(b"b".to_vec())));
    assert_eq!(store.execute(&head), Reply::Item(None));
    assert_eq!(store.execute(&tail), Reply::Item(None));
}

#[test]
fn a_key_holds_one_kind_of_value() {
    let mut store = MemoryStore::new();
    push(&mut store, "list", End::Tail, b"a");
    store.execute(&Command::SetAdd { key: "set".to_owned(), member: b"a".to_vec() });
    assert_eq!(
        store.execute(&Command::SetAdd { key: "list".to_owned(), member: b"a".to_vec() }),
        Reply::Fault(Fault::WrongKind)
    );
    assert_eq!(
        store.execute(&Command::SetMembers { key: "list".to_owned() }),
        Reply::Fault(Fault::WrongKind)
    );
    assert_eq!(push(&mut store, "set", End::Head, b"b"), Reply::Fault(Fault::WrongKind));
    assert_eq!(
        store.execute(&Command::Len { key: "set".to_owned() }),
        Reply::Fault(Fault::WrongKind)
    );
    assert_eq!(all(&mut store, "list"), Reply::Items(bytes(&[b"a"])));
    assert_eq!(
        store.execute(&Command::SetCount { key: "set".to_owned() }),
        Reply::Integer(1)
    );
}

#[test]
fn writing_at_an_index_needs_the_element() {
    let mut store = MemoryStore::new();
    let set = |index: i64| Command::SetIndex { key: "k".to_owned(), index, value: b"x".to_vec() };
    assert_eq!(store.execute(&set(0)), Reply::Fault(Fault::NoSuchKey));
    push(&mut store, "k", End::Tail, b"a");
    push(&mut store, "k", End::Tail, b"b");
    assert_eq!(store.execute(&set(2)), Reply::Fault(Fault::OutOfRange));
    assert_eq!(store.execute(&set(-3)), Reply::Fault(Fault::OutOfRange));
    assert_eq!(store.execute(&set(-2)), Reply::Done);
    assert_eq!(all(&mut store, "k"), Reply::Items(bytes(&[b"x", b"b"])));
}

#[test]
fn an_insertion_answers_with_a_length_or_a_code() {
    let mut store = MemoryStore::new();
    let insert = |place: Place, pivot: &[u8]| Command::Insert {
        key: "k".to_owned(),
        place,
        pivot: pivot.to_vec(),
        value: b"x".to_vec(),
    };
    assert_eq!(store.execute(&insert(Place::Before, b"a")), Reply::Integer(0));
    push(&mut store, "k", End::Tail, b"a");
    push(&mut store, "k", End::Tail, b"b");
    assert_eq!(store.execute(&insert(Place::Before, b"z")), Reply::Integer(-1));
    assert_eq!(store.execute(&insert(Place::After, b"b")), Reply::Integer(3));
    assert_eq!(store.execute(&insert(Place::Before, b"a")), Reply::Integer(4));
    assert_eq!(all(&mut store, "k"), Reply::Items(bytes(&[b"x", b"a", b"b", b"x"])));
    assert_eq!(store.execute(&insert(Place::After, b"x")), Reply::Integer(5));
    assert_eq!(all(&mut store, "k"), Reply::Items(bytes(&[b"x", b"x", b"a", b"b", b"x"])));
}

#[test]
fn a_deletion_answers_with_the_number_of_keys_deleted() {
    let mut store = MemoryStore::new();
    let delete = Command::Delete { key: "k".to_owned() };
    assert_eq!(store.execute(&delete), Reply::Integer(0));
    push(&mut store, "k", End::Tail, b"a");
    push(&mut store, "j", End::Tail, b"b");
    assert_eq!(store.execute(&delete), Reply::Integer(1));
    assert_eq!(store.execute(&delete), Reply::Integer(0));
    assert_eq!(all(&mut store, "k"), Reply::Items(Vec::new()));
    assert_eq!(all(&mut store, "j"), Reply::Items(bytes(&[b"b"])));
}

#[test]
fn members_are_listed_once_each() {
    let mut store = MemoryStore::new();
    for member in [&b"a"[..], b"b", b"a", b"c", b"b"] {
        store.execute(&Command::SetAdd { key: "s".to_owned(), member: member.to_vec() });
    }
    store.execute(&Command::SetRemove { key: "s".to_owned(), member: b"b".to_vec() });
    match store.execute(&Command::SetMembers { key: "s".to_owned() }) {
        Reply::Members(mut members) => {
            members.sort();
            assert_eq!(members, bytes(&[b"a", b"c"]));
        }
        other => panic!("unexpected answer: {:?}", other),
    }
    assert_eq!(store.execute(&Command::SetCount { key: "s".to_owned() }), Reply::Integer(2));
    assert_eq!(
        store.execute(&Command::SetContains { key: "s".to_owned(), member: b"b".to_vec() }),
        Reply::Integer(0)
    );
    assert_eq!(
        store.execute(&Command::SetContains { key: "s".to_owned(), member: b"c".to_vec() }),
        Reply::Integer(1)
    );
}

#[test]
fn keys_are_kept_apart() {
    let mut store = MemoryStore::new();
    push(&mut store, "a", End::Tail, b"1");
    push(&mut store, "b", End::Tail, b"2");
    push(&mut store, "a", End::Tail, b"3");
    store.execute(&Command::Pop { key: "b".to_owned(), end: End::Tail });
    push(&mut store, "c", End::Tail, b"4");
    assert_eq!(all(&mut store, "a"), Reply::Items(bytes(&[b"1", b"3"])));
    assert_eq!(all(&mut store, "b"), Reply::Items(Vec::new()));
    assert_eq!(all(&mut store, "c"), Reply::Items(bytes(&[b"4"])));
    assert_eq!(all(&mut store, ""), Reply::Items(Vec::new()));
}

#[test]
fn elements_are_compared_byte_by_byte() {
    assert!(same_bytes(&vec![1, 2, 3], &vec![1, 2, 3]));
    assert!(same_bytes(&Vec::new(), &Vec::new()));
    assert!(!same_bytes(&vec![1, 2, 3], &vec![1, 2]));
    assert!(!same_bytes(&vec![1, 2, 3], &vec![1, 2, 4]));
    assert!(!same_bytes(&vec![0], &Vec::new()));
    assert_eq!(copy_bytes(&vec![9, 8, 7]), vec![9, 8, 7]);
    assert_eq!(copy_bytes(&Vec::new()), Vec::<u8>::new());
}

#[test]
fn an_index_reads_without_changing() {
    let mut store = MemoryStore::new();
    push(&mut store, "k", End::Tail, b"a");
    push(&mut store, "k", End::Tail, b"b");
    let at = |index: i64| Command::Index { key: "k".to_owned(), index };
    assert_eq!(store.execute(&at(1)), Reply::Item(Some(b"b".to_vec())));
    assert_eq!(store.execute(&at(-2)), Reply::Item(Some(b"a".to_vec())));
    assert_eq!(store.execute(&at(2)), Reply::Item(None));
    assert_eq!(store.execute(&at(i64::MIN)), Reply::Item(None));
    assert_eq!(store.execute(&at(i64::MAX)), Reply::Item(None));
    assert_eq!(all(&mut store, "k"), Reply::Items(bytes(&[b"a", b"b"])));
}
