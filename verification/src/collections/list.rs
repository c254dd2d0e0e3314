//! A list stored as the remote store's double-ended sequence.
use vstd::prelude::*;
use crate::collections::{acknowledged, transported, Collection, KindEvent};
use crate::command::{Command, CommandView, End, Place};
use crate::store::{
    carries_integer, carries_item, carries_items, elements, first_occurrence, lemma_first_occurrence,
    lemma_occurrences_bound, lemma_without_first, lemma_without_last, occurrences, sequence_at,
    step, taken, well_formed, window, Contents, ReplyView, CAPACITY,
};
use redis::RedisError;
use crate::error::Error;

verus! {

/// Events that can occur on a list.
#[derive(Debug, Clone, Copy, PartialEq, Eq, Structural)]
pub enum ListEvent {
    /// The list changed.
    E,
}

impl KindEvent for ListEvent {
    open spec fn kind() -> Seq<char> {
        "List"@
    }

    open spec fn decoded(payload: Seq<char>) -> Option<ListEvent> {
        Some(ListEvent::E)
    }

    fn from_str(s: &str) -> (r: Result<ListEvent, Error>) {
        Ok(ListEvent::E)
    }
}

/// A handle to a list in the remote store.
///
/// The list behaves like a double-ended queue: adding and removing at either
/// end takes constant time in the store, reading or writing at an index takes
/// time linear in the distance from the nearer end.
#[derive(Clone, Debug)]
pub struct List {
    name: String,
}

impl List {
    /// The logical name that the list was made with.
    pub closed spec fn name_view(&self) -> Seq<char> {
        self.name@
    }
}

impl Collection for List {
    type WatchEvent = ListEvent;

    open spec fn prefix() -> Seq<char> {
        "_orm_list:"@
    }

    open spec fn key_view(&self) -> Seq<char> {
        "_orm_list:"@ + self.name_view()
    }

    fn get(key: String) -> (r: Result<List, RedisError>) {
        Ok(List { name: key })
    }

    fn key(&self) -> (key: String) {
        String::from_str("_orm_list:").concat(self.name.as_str())
    }
}

/// The element that the store found at an index, or [`Error::NotFound`]
/// where it found none.
pub open spec fn indexed(reply: Result<Option<Vec<u8>>, RedisError>) -> Result<Vec<u8>, Error> {
    match reply {
        Ok(Some(item)) => Ok(item),
        Ok(None) => Err(Error::NotFound),
        Err(e) => Err(Error::RedisError(e)),
    }
}

/// Whether the store found the pivot of an insertion. Where it inserted, it
/// answers with the new length of the list, which is positive. It answers -1
/// where the list does not hold the pivot and 0 where the key holds no list,
/// and in both cases it inserted nothing.
pub open spec fn inserted(reply: Result<i64, RedisError>) -> Result<bool, Error> {
    match reply {
        Ok(n) => Ok(n > 0),
        Err(e) => Err(Error::RedisError(e)),
    }
}

impl List {
    /// Pops the element at the tail of the list, its last element.
    pub fn pop_front(&self) -> (command: Command)
        ensures
            command@ == (CommandView::Pop { key: self.key_view(), end: End::Tail }),
    {
        Command::Pop { key: self.key(), end: End::Tail }
    }

    /// Reads the answer to [`List::pop_front`]: the element, or `None` where
    /// the list was empty.
    pub fn pop_front_reply(reply: Result<Option<Vec<u8>>, RedisError>) -> (r: Result<
        Option<Vec<u8>>,
        Error,
    >)
        ensures
            r == transported(reply),
    {
        match reply {
            Ok(item) => Ok(item),
            Err(e) => Err(Error::RedisError(e)),
        }
    }

    /// Pops the element at the head of the list, its first element.
    pub fn pop_back(&self) -> (command: Command)
        ensures
            command@ == (CommandView::Pop { key: self.key_view(), end: End::Head }),
    {
        Command::Pop { key: self.key(), end: End::Head }
    }

    /// Reads the answer to [`List::pop_back`]: the element, or `None` where
    /// the list was empty.
    pub fn pop_back_reply(reply: Result<Option<Vec<u8>>, RedisError>) -> (r: Result<
        Option<Vec<u8>>,
        Error,
    >)
        ensures
            r == transported(reply),
    {
        match reply {
            Ok(item) => Ok(item),
            Err(e) => Err(Error::RedisError(e)),
        }
    }

    /// Gets the element at `index`. Indices start at 0 at the head, and
    /// negative ones count from the tail: -1 is the last element.
    pub fn index(&self, index: i64) -> (command: Command)
        ensures
            command@ == (CommandView::Index { key: self.key_view(), index }),
    {
        Command::Index { key: self.key(), index }
    }

    /// Reads the answer to [`List::index`]: the element, or
    /// [`Error::NotFound`] where the index is out of range.
    pub fn index_reply(reply: Result<Option<Vec<u8>>, RedisError>) -> (r: Result<Vec<u8>, Error>)
        ensures
            r == indexed(reply),
    {
        match reply {
            Ok(Some(item)) => Ok(item),
            Ok(None) => Err(Error::NotFound),
            Err(e) => Err(Error::RedisError(e)),
        }
    }

    /// Sets the element at `index` to `value`. See [`List::index`] for the
    /// meaning of `index`.
    pub fn set_index(&self, index: i64, value: Vec<u8>) -> (command: Command)
        ensures
            command@ == (CommandView::SetIndex { key: self.key_view(), index, value: value@ }),
    {
        Command::SetIndex { key: self.key(), index, value }
    }

    /// Reads the answer to [`List::set_index`].
    pub fn set_index_reply(reply: Result<String, RedisError>) -> (r: Result<(), Error>)
        ensures
            r == acknowledged(reply),
    {
        match reply {
            Ok(_) => Ok(()),
            Err(e) => Err(Error::RedisError(e)),
        }
    }

    /// Gets the elements from `start` to `stop`, the element at `stop`
    /// included. Both are indices as in [`List::index`].
    pub fn range(&self, start: i64, stop: i64) -> (command: Command)
        ensures
            command@ == (CommandView::Range { key: self.key_view(), start, stop }),
    {
        Command::Range { key: self.key(), start, stop }
    }

    /// Reads the answer to [`List::range`]: the elements in the order of the
    /// list, none where the range is empty or out of the list.
    pub fn range_reply(reply: Result<Vec<Vec<u8>>, RedisError>) -> (r: Result<Vec<Vec<u8>>, Error>)
        ensures
            r == transported(reply),
    {
        match reply {
            Ok(items) => Ok(items),
            Err(e) => Err(Error::RedisError(e)),
        }
    }

    /// Trims the list to the elements from `start` to `stop`, the element at
    /// `stop` included. A `start` behind the last element empties the list,
    /// and a `stop` behind it stands for the last element.
    pub fn trim(&self, start: i64, stop: i64) -> (command: Command)
        ensures
            command@ == (CommandView::Trim { key: self.key_view(), start, stop }),
    {
        Command::Trim { key: self.key(), start, stop }
    }

    /// Reads the answer to [`List::trim`].
    pub fn trim_reply(reply: Result<String, RedisError>) -> (r: Result<(), Error>)
        ensures
            r == acknowledged(reply),
    {
        match reply {
            Ok(_) => Ok(()),
            Err(e) => Err(Error::RedisError(e)),
        }
    }

    /// Pushes `item` at the tail of the list, where it becomes the last
    /// element.
    pub fn push_front(&self, item: Vec<u8>) -> (command: Command)
        ensures
            command@ == (CommandView::Push { key: self.key_view(), end: End::Tail, value: item@ }),
    {
        Command::Push { key: self.key(), end: End::Tail, value: item }
    }

    /// Reads the answer to [`List::push_front`].
    pub fn push_front_reply(reply: Result<(), RedisError>) -> (r: Result<(), Error>)
        ensures
            r == acknowledged(reply),
    {
        match reply {
            Ok(_) => Ok(()),
            Err(e) => Err(Error::RedisError(e)),
        }
    }

    /// Pushes `item` at the head of the list, where it becomes the first
    /// element.
    pub fn push_back(&self, item: Vec<u8>) -> (command: Command)
        ensures
            command@ == (CommandView::Push { key: self.key_view(), end: End::Head, value: item@ }),
    {
        Command::Push { key: self.key(), end: End::Head, value: item }
    }

    /// Reads the answer to [`List::push_back`].
    pub fn push_back_reply(reply: Result<(), RedisError>) -> (r: Result<(), Error>)
        ensures
            r == acknowledged(reply),
    {
        match reply {
            Ok(_) => Ok(()),
            Err(e) => Err(Error::RedisError(e)),
        }
    }

    /// Asks for the length of the list.
    pub fn len(&self) -> (command: Command)
        ensures
            command@ == (CommandView::Len { key: self.key_view() }),
    {
        Command::Len { key: self.key() }
    }

    /// Reads the answer to [`List::len`].
    pub fn len_reply(reply: Result<u32, RedisError>) -> (r: Result<u32, Error>)
        ensures
            r == transported(reply),
    {
        match reply {
            Ok(n) => Ok(n),
            Err(e) => Err(Error::RedisError(e)),
        }
    }

    /// Removes occurrences of `item`: the first `count` of them from the head
    /// on where `count` is positive, the last `-count` of them from the tail
    /// on where it is negative, and all of them where it is 0.
    pub fn remove(&self, count: i64, item: Vec<u8>) -> (command: Command)
        ensures
            command@ == (CommandView::Remove { key: self.key_view(), count, value: item@ }),
    {
        Command::Remove { key: self.key(), count, value: item }
    }

    /// Reads the answer to [`List::remove`]: the number of elements removed.
    pub fn remove_reply(reply: Result<u32, RedisError>) -> (r: Result<u32, Error>)
        ensures
            r == transported(reply),
    {
        match reply {
            Ok(n) => Ok(n),
            Err(e) => Err(Error::RedisError(e)),
        }
    }

    /// Inserts `value` in front of the first occurrence of `pivot`.
    pub fn insert_before(&self, pivot: Vec<u8>, value: Vec<u8>) -> (command: Command)
        ensures
            command@ == (CommandView::Insert {
                key: self.key_view(),
                place: Place::Before,
                pivot: pivot@,
                value: value@,
            }),
    {
        Command::Insert { key: self.key(), place: Place::Before, pivot, value }
    }

    /// Reads the answer to [`List::insert_before`]: `true` where the store
    /// inserted the value, and `false` where it did not find the pivot, be it
    /// that the list does not hold it or that there is no list. On `false`
    /// nothing was inserted.
    pub fn insert_before_reply(reply: Result<i64, RedisError>) -> (r: Result<bool, Error>)
        ensures
            r == inserted(reply),
    {
        match reply {
            Ok(n) => Ok(n > 0),
            Err(e) => Err(Error::RedisError(e)),
        }
    }

    /// Inserts `value` behind the first occurrence of `pivot`.
    pub fn insert_after(&self, pivot: Vec<u8>, value: Vec<u8>) -> (command: Command)
        ensures
            command@ == (CommandView::Insert {
                key: self.key_view(),
                place: Place::After,
                pivot: pivot@,
                value: value@,
            }),
    {
        Command::Insert { key: self.key(), place: Place::After, pivot, value }
    }

    /// Reads the answer to [`List::insert_after`]: `true` where the store
    /// inserted the value, and `false` where it did not find the pivot, be it
    /// that the list does not hold it or that there is no list. On `false`
    /// nothing was inserted.
    pub fn insert_after_reply(reply: Result<i64, RedisError>) -> (r: Result<bool, Error>)
        ensures
            r == inserted(reply),
    {
        match reply {
            Ok(n) => Ok(n > 0),
            Err(e) => Err(Error::RedisError(e)),
        }
    }
}

/// Elements pushed at the head of an empty list leave at the tail in the
/// order in which they were pushed: after `push_back(a)` and `push_back(b)`
/// on a list without elements, `pop_front` gives `a` and then `b`.
pub proof fn lemma_push_back_pop_front_keeps_order(
    store: Contents,
    list: List,
    a: Vec<u8>,
    b: Vec<u8>,
)
    requires
        sequence_at(store, list.key_view()) == Some(Seq::<Seq<u8>>::empty()),
    ensures
        ({
            let key = list.key_view();
            let first = step(store, CommandView::Push { key, end: End::Head, value: a@ }).0;
            let second = step(first, CommandView::Push { key, end: End::Head, value: b@ }).0;
            let third = step(second, CommandView::Pop { key, end: End::Tail });
            let fourth = step(third.0, CommandView::Pop { key, end: End::Tail });
            &&& carries_item(Some(a), third.1)
            &&& carries_item(Some(b), fourth.1)
            &&& transported::<Option<Vec<u8>>>(Ok(Some(a))) == Ok::<Option<Vec<u8>>, Error>(Some(a))
            &&& transported::<Option<Vec<u8>>>(Ok(Some(b))) == Ok::<Option<Vec<u8>>, Error>(Some(b))
            &&& sequence_at(fourth.0, key) == Some(Seq::<Seq<u8>>::empty())
        }),
{
    let key = list.key_view();
    let first = step(store, CommandView::Push { key, end: End::Head, value: a@ }).0;
    assert(seq![a@] + Seq::<Seq<u8>>::empty() =~= seq![a@]);
    assert(sequence_at(first, key) == Some(seq![a@]));
    let second = step(first, CommandView::Push { key, end: End::Head, value: b@ }).0;
    assert(seq![b@] + seq![a@] =~= seq![b@, a@]);
    assert(sequence_at(second, key) == Some(seq![b@, a@]));
    let third = step(second, CommandView::Pop { key, end: End::Tail });
    assert(seq![b@, a@].drop_last() =~= seq![b@]);
    assert(sequence_at(third.0, key) == Some(seq![b@]));
    let fourth = step(third.0, CommandView::Pop { key, end: End::Tail });
    assert(seq![b@].drop_last() =~= Seq::<Seq<u8>>::empty());
}

/// An element pushed at one end of a list is the one that a pop at that end
/// gives back, and the list is then as it was before: this holds at the tail
/// (`push_front`, `pop_front`) and at the head (`push_back`, `pop_back`),
/// whatever the list held, as long as it was not full.
pub proof fn lemma_push_then_pop_at_one_end(store: Contents, list: List, end: End, item: Vec<u8>)
    requires
        well_formed(store),
        sequence_at(store, list.key_view()) is Some,
        sequence_at(store, list.key_view()).unwrap().len() < CAPACITY,
    ensures
        ({
            let key = list.key_view();
            let pushed = step(store, CommandView::Push { key, end, value: item@ }).0;
            let popped = step(pushed, CommandView::Pop { key, end });
            &&& carries_item(Some(item), popped.1)
            &&& popped.0 == store
        }),
{
    let key = list.key_view();
    let items = sequence_at(store, key).unwrap();
    let pushed = step(store, CommandView::Push { key, end, value: item@ }).0;
    let popped = step(pushed, CommandView::Pop { key, end });
    match end {
        End::Tail => {
            assert(items.push(item@).drop_last() =~= items);
        },
        End::Head => {
            assert(items.insert(0, item@).remove(0) =~= items);
        },
    }
    assert(popped.0 =~= store);
}

/// In a list of `n` elements, `index(0)` gives the first element and
/// `index(-1)` the last, and `index(n)` is an error: [`Error::NotFound`].
pub proof fn lemma_index_first_last_and_beyond(store: Contents, list: List, items: Seq<Seq<u8>>)
    requires
        sequence_at(store, list.key_view()) == Some(items),
        0 < items.len() <= i64::MAX,
    ensures
        ({
            let key = list.key_view();
            let first = step(store, CommandView::Index { key, index: 0i64 }).1;
            let last = step(store, CommandView::Index { key, index: -1i64 }).1;
            let beyond = step(store, CommandView::Index { key, index: items.len() as i64 }).1;
            &&& first == ReplyView::Item(Some(items[0]))
            &&& last == ReplyView::Item(Some(items[items.len() - 1]))
            &&& beyond == ReplyView::Item(None)
            &&& forall|answer: Option<Vec<u8>>| #[trigger]
                carries_item(answer, first) ==> indexed(Ok(answer)) is Ok && indexed(
                    Ok(answer),
                ).unwrap()@ == items[0]
            &&& forall|answer: Option<Vec<u8>>| #[trigger]
                carries_item(answer, last) ==> indexed(Ok(answer)) is Ok && indexed(
                    Ok(answer),
                ).unwrap()@ == items[items.len() - 1]
            &&& forall|answer: Option<Vec<u8>>| #[trigger]
                carries_item(answer, beyond) ==> indexed(Ok(answer)) == Err::<Vec<u8>, Error>(
                    Error::NotFound,
                )
        }),
{
}

/// A range includes the element at its `stop`: for positions
/// `start <= stop` inside a list, `range(start, stop)` gives the
/// `stop - start + 1` elements from `start` to `stop` in their order, so that
/// `range(0, 1)` gives two.
pub proof fn lemma_range_includes_stop(
    store: Contents,
    list: List,
    items: Seq<Seq<u8>>,
    start: i64,
    stop: i64,
)
    requires
        sequence_at(store, list.key_view()) == Some(items),
        0 <= start <= stop < items.len(),
    ensures
        ({
            let key = list.key_view();
            let reply = step(store, CommandView::Range { key, start, stop }).1;
            &&& reply == ReplyView::Items(items.subrange(start as int, stop + 1))
            &&& forall|answer: Vec<Vec<u8>>| #[trigger]
                carries_items(answer, reply) ==> transported(Ok(answer)) == Ok::<
                    Vec<Vec<u8>>,
                    Error,
                >(answer) && answer.len() == stop - start + 1
        }),
{
    let key = list.key_view();
    let reply = step(store, CommandView::Range { key, start, stop }).1;
    assert(window(start, stop, items.len() as int) == (start as int, stop + 1));
    assert forall|answer: Vec<Vec<u8>>| #[trigger] carries_items(answer, reply) implies answer.len()
        == stop - start + 1 by {
        assert(elements(answer@).len() == answer@.len());
    }
}

/// The length that the store reports is the number of elements, and each
/// push on a list that is not full adds one to it.
pub proof fn lemma_len_counts_pushes(store: Contents, list: List, end: End, item: Vec<u8>)
    requires
        sequence_at(store, list.key_view()) is Some,
        sequence_at(store, list.key_view()).unwrap().len() < CAPACITY,
    ensures
        ({
            let key = list.key_view();
            let before = step(store, CommandView::Len { key }).1;
            let pushed = step(store, CommandView::Push { key, end, value: item@ }).0;
            let after = step(pushed, CommandView::Len { key }).1;
            &&& carries_integer(sequence_at(store, key).unwrap().len() as int, before)
            &&& carries_integer(sequence_at(store, key).unwrap().len() as int + 1, after)
        }),
{
}

/// A pop on a list without elements gives `None`, which is no error, and
/// leaves the store as it was.
pub proof fn lemma_pop_on_an_empty_list(store: Contents, list: List, end: End)
    requires
        well_formed(store),
        sequence_at(store, list.key_view()) == Some(Seq::<Seq<u8>>::empty()),
    ensures
        ({
            let popped = step(store, CommandView::Pop { key: list.key_view(), end });
            &&& carries_item(None, popped.1)
            &&& transported::<Option<Vec<u8>>>(Ok(None)) == Ok::<Option<Vec<u8>>, Error>(None)
            &&& popped.0 == store
        }),
{
    let popped = step(store, CommandView::Pop { key: list.key_view(), end });
    assert(popped.0 =~= store);
}

/// A trim whose `start` lies behind the last element empties the list, and
/// one whose `stop` lies behind it keeps the elements from `start` to the
/// last. Neither is an error.
pub proof fn lemma_trim_out_of_range(
    store: Contents,
    list: List,
    items: Seq<Seq<u8>>,
    start: i64,
    stop: i64,
)
    requires
        sequence_at(store, list.key_view()) == Some(items),
        0 <= start,
    ensures
        ({
            let key = list.key_view();
            let trimmed = step(store, CommandView::Trim { key, start, stop });
            &&& trimmed.1 == ReplyView::Done
            &&& forall|status: String| #[trigger] acknowledged(Ok(status)) == Ok::<(), Error>(())
            &&& start >= items.len() ==> sequence_at(trimmed.0, key) == Some(
                Seq::<Seq<u8>>::empty(),
            )
            &&& start < items.len() <= stop ==> sequence_at(trimmed.0, key) == Some(
                items.subrange(start as int, items.len() as int),
            )
        }),
{
    let key = list.key_view();
    let len = items.len() as int;
    let trimmed = step(store, CommandView::Trim { key, start, stop });
    if start >= len {
        assert(window(start, stop, len) == (0int, 0int));
        assert(items.subrange(0, 0) =~= Seq::<Seq<u8>>::empty());
    } else if stop >= len {
        assert(window(start, stop, len) == (start as int, len));
    }
}

/// An insertion reports whether it found the pivot. Where it did not, be it
/// that the list does not hold the pivot or that the key holds no list, it
/// reports `false` and nothing is inserted. Where it did, and the list is not
/// full, it reports `true` and the value stands directly in front of or
/// behind the first occurrence of the pivot.
pub proof fn lemma_insert_reports_the_pivot(
    store: Contents,
    list: List,
    items: Seq<Seq<u8>>,
    place: Place,
    pivot: Vec<u8>,
    value: Vec<u8>,
)
    requires
        sequence_at(store, list.key_view()) == Some(items),
        items.len() < CAPACITY,
    ensures
        ({
            let key = list.key_view();
            let after = step(
                store,
                CommandView::Insert { key, place, pivot: pivot@, value: value@ },
            );
            let at = first_occurrence(items, pivot@);
            &&& forall|answer: i64| #[trigger]
                carries_integer(answer as int, after.1) ==> inserted(Ok(answer)) == Ok::<
                    bool,
                    Error,
                >(items.contains(pivot@))
            &&& !items.contains(pivot@) ==> {
                &&& after.1 == ReplyView::Integer(
                    if items.len() == 0 {
                        0int
                    } else {
                        -1int
                    },
                )
                &&& sequence_at(after.0, key) == Some(items)
            }
            &&& items.contains(pivot@) ==> {
                &&& after.1 == ReplyView::Integer(items.len() as int + 1)
                &&& 0 <= at < items.len() && items[at] == pivot@
                &&& sequence_at(after.0, key) == Some(
                    items.insert(
                        match place {
                            Place::Before => at,
                            Place::After => at + 1,
                        },
                        value@,
                    ),
                )
            }
        }),
{
    lemma_first_occurrence(items, pivot@);
    if items.len() == 0 {
        assert(items =~= Seq::<Seq<u8>>::empty());
    }
}

/// A removal reports the number of elements that it removed: every
/// occurrence of the item where `count` is 0, and otherwise as many as the
/// magnitude of `count` allows. It removes occurrences of the item and
/// nothing else.
pub proof fn lemma_remove_reports_its_count(
    store: Contents,
    list: List,
    items: Seq<Seq<u8>>,
    count: i64,
    item: Vec<u8>,
)
    requires
        sequence_at(store, list.key_view()) == Some(items),
    ensures
        ({
            let key = list.key_view();
            let after = step(store, CommandView::Remove { key, count, value: item@ });
            let limit = if count > 0 {
                count as nat
            } else if count < 0 {
                (-count) as nat
            } else {
                items.len()
            };
            let left = sequence_at(after.0, key);
            &&& after.1 == ReplyView::Integer(taken(items, item@, limit) as int)
            &&& count == 0 ==> taken(items, item@, limit) == occurrences(items, item@)
            &&& left is Some
            &&& left.unwrap().len() == items.len() - taken(items, item@, limit)
            &&& occurrences(left.unwrap(), item@) == occurrences(items, item@) - taken(
                items,
                item@,
                limit,
            )
        }),
{
    lemma_occurrences_bound(items, item@);
    if count < 0 {
        lemma_without_last(items, item@, (-count) as nat);
    } else if count > 0 {
        lemma_without_first(items, item@, count as nat);
    } else {
        lemma_without_first(items, item@, items.len());
    }
}

} // verus!
