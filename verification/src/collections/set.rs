//! A set stored as the remote store's collection of unique elements.
use vstd::prelude::*;
use crate::collections::{transported, Collection, KindEvent, WatchEvent};
use crate::command::{Command, CommandView};
use crate::error::Error;
use crate::store::{
    carries_members, elements, members_at, step, well_formed, Contents, ReplyView, CAPACITY,
};
use redis::RedisError;
use std::convert::Infallible;

verus! {

/// Events that can occur on a set. There are none yet: no value of this type
/// exists.
#[derive(Debug, Clone, Copy)]
pub enum SetEvent {
    /// Holds a value of a type that has none.
    Never(Infallible),
}

impl KindEvent for SetEvent {
    open spec fn kind() -> Seq<char> {
        "Set"@
    }

    open spec fn decoded(payload: Seq<char>) -> Option<SetEvent> {
        None
    }

    fn from_str(s: &str) -> (r: Result<SetEvent, Error>) {
        Err(
            Error::InvalidNotification {
                collection: String::from_str("Set"),
                notification: String::from_str(s),
            },
        )
    }
}

/// Whether the store changed or found one member: it answers with the number
/// of members that the command applied to.
pub open spec fn applied(reply: Result<u32, RedisError>) -> Result<bool, Error> {
    match reply {
        Ok(n) => Ok(n == 1),
        Err(e) => Err(Error::RedisError(e)),
    }
}

/// A handle to a set in the remote store.
///
/// The store keeps one copy of each element, and adds, removes and finds a
/// member in constant time.
#[derive(Clone, Debug)]
pub struct UniqueSet {
    name: String,
}

impl UniqueSet {
    /// The logical name that the set was made with.
    pub closed spec fn name_view(&self) -> Seq<char> {
        self.name@
    }
}

impl Collection for UniqueSet {
    type WatchEvent = SetEvent;

    open spec fn prefix() -> Seq<char> {
        "_orm_set:"@
    }

    open spec fn key_view(&self) -> Seq<char> {
        "_orm_set:"@ + self.name_view()
    }

    fn get(key: String) -> (r: Result<UniqueSet, RedisError>) {
        Ok(UniqueSet { name: key })
    }

    fn key(&self) -> (key: String) {
        String::from_str("_orm_set:").concat(self.name.as_str())
    }
}

impl UniqueSet {
    /// Adds `item` to the set.
    pub fn add(&self, item: Vec<u8>) -> (command: Command)
        ensures
            command@ == (CommandView::SetAdd { key: self.key_view(), member: item@ }),
    {
        Command::SetAdd { key: self.key(), member: item }
    }

    /// Reads the answer to [`UniqueSet::add`]: `true` where the item is new
    /// to the set, `false` where it was a member already.
    pub fn add_reply(reply: Result<u32, RedisError>) -> (r: Result<bool, Error>)
        ensures
            r == applied(reply),
    {
        match reply {
            Ok(n) => Ok(n == 1),
            Err(e) => Err(Error::RedisError(e)),
        }
    }

    /// Asks for the number of members. A set that does not exist has none.
    pub fn count(&self) -> (command: Command)
        ensures
            command@ == (CommandView::SetCount { key: self.key_view() }),
    {
        Command::SetCount { key: self.key() }
    }

    /// Reads the answer to [`UniqueSet::count`].
    pub fn count_reply(reply: Result<u32, RedisError>) -> (r: Result<u32, Error>)
        ensures
            r == transported(reply),
    {
        match reply {
            Ok(n) => Ok(n),
            Err(e) => Err(Error::RedisError(e)),
        }
    }

    /// Removes `item` from the set.
    pub fn remove(&self, item: Vec<u8>) -> (command: Command)
        ensures
            command@ == (CommandView::SetRemove { key: self.key_view(), member: item@ }),
    {
        Command::SetRemove { key: self.key(), member: item }
    }

    /// Reads the answer to [`UniqueSet::remove`]: `true` where the item was a
    /// member and is removed, `false` where it was none.
    pub fn remove_reply(reply: Result<u32, RedisError>) -> (r: Result<bool, Error>)
        ensures
            r == applied(reply),
    {
        match reply {
            Ok(n) => Ok(n == 1),
            Err(e) => Err(Error::RedisError(e)),
        }
    }

    /// Asks whether `item` is a member of the set.
    pub fn contains(&self, item: Vec<u8>) -> (command: Command)
        ensures
            command@ == (CommandView::SetContains { key: self.key_view(), member: item@ }),
    {
        Command::SetContains { key: self.key(), member: item }
    }

    /// Reads the answer to [`UniqueSet::contains`].
    pub fn contains_reply(reply: Result<u32, RedisError>) -> (r: Result<bool, Error>)
        ensures
            r == applied(reply),
    {
        match reply {
            Ok(n) => Ok(n == 1),
            Err(e) => Err(Error::RedisError(e)),
        }
    }

    /// Asks for all members of the set.
    pub fn to_vec(&self) -> (command: Command)
        ensures
            command@ == (CommandView::SetMembers { key: self.key_view() }),
    {
        Command::SetMembers { key: self.key() }
    }

    /// Reads the answer to [`UniqueSet::to_vec`]: the members, in the order
    /// in which the store gave them, which is not specified.
    pub fn to_vec_reply(reply: Result<Vec<Vec<u8>>, RedisError>) -> (r: Result<
        Vec<Vec<u8>>,
        Error,
    >)
        ensures
            r == transported(reply),
    {
        match reply {
            Ok(items) => Ok(items),
            Err(e) => Err(Error::RedisError(e)),
        }
    }
}

/// A set keeps one copy of each element: on a set without members `add(x)`
/// reports `true`, a second `add(x)` reports `false`, and `count` is then 1.
pub proof fn lemma_add_twice_keeps_one(store: Contents, set: UniqueSet, x: Vec<u8>)
    requires
        members_at(store, set.key_view()) == Some(Set::<Seq<u8>>::empty()),
    ensures
        ({
            let key = set.key_view();
            let first = step(store, CommandView::SetAdd { key, member: x@ });
            let second = step(first.0, CommandView::SetAdd { key, member: x@ });
            let third = step(second.0, CommandView::SetCount { key });
            &&& first.1 == ReplyView::Integer(1)
            &&& applied(Ok(1u32)) == Ok::<bool, Error>(true)
            &&& second.1 == ReplyView::Integer(0)
            &&& applied(Ok(0u32)) == Ok::<bool, Error>(false)
            &&& third.1 == ReplyView::Integer(1)
            &&& transported(Ok(1u32)) == Ok::<u32, Error>(1u32)
        }),
{
    let key = set.key_view();
    let one = Set::<Seq<u8>>::empty().insert(x@);
    assert(one.finite() && one.len() == 1);
    let first = step(store, CommandView::SetAdd { key, member: x@ });
    assert(members_at(first.0, key) == Some(one));
    let second = step(first.0, CommandView::SetAdd { key, member: x@ });
    assert(second.0 == first.0);
}

/// What `contains(x)` reports follows `add(x)` and `remove(x)`: where `x` is
/// no member of a set that is not full it reports `false`, after `add(x)` it
/// reports `true`, and after `remove(x)` it reports `false` again.
pub proof fn lemma_contains_follows_add_and_remove(store: Contents, set: UniqueSet, x: Vec<u8>)
    requires
        well_formed(store),
        members_at(store, set.key_view()) is Some,
        !members_at(store, set.key_view()).unwrap().contains(x@),
        members_at(store, set.key_view()).unwrap().len() < CAPACITY,
    ensures
        ({
            let key = set.key_view();
            let before = step(store, CommandView::SetContains { key, member: x@ });
            let added = step(before.0, CommandView::SetAdd { key, member: x@ });
            let between = step(added.0, CommandView::SetContains { key, member: x@ });
            let removed = step(between.0, CommandView::SetRemove { key, member: x@ });
            let after = step(removed.0, CommandView::SetContains { key, member: x@ });
            &&& before.1 == ReplyView::Integer(0)
            &&& added.1 == ReplyView::Integer(1)
            &&& between.1 == ReplyView::Integer(1)
            &&& removed.1 == ReplyView::Integer(1)
            &&& after.1 == ReplyView::Integer(0)
            &&& applied(Ok(0u32)) == Ok::<bool, Error>(false)
            &&& applied(Ok(1u32)) == Ok::<bool, Error>(true)
        }),
{
    let key = set.key_view();
    let members = members_at(store, key).unwrap();
    let before = step(store, CommandView::SetContains { key, member: x@ });
    assert(before.0 == store);
    let added = step(before.0, CommandView::SetAdd { key, member: x@ });
    assert(members.finite());
    assert(members.insert(x@).len() > 0);
    assert(members_at(added.0, key) is Some);
    assert(members_at(added.0, key).unwrap().contains(x@));
    let between = step(added.0, CommandView::SetContains { key, member: x@ });
    assert(between.0 == added.0);
    let removed = step(between.0, CommandView::SetRemove { key, member: x@ });
    assert(members_at(removed.0, key) is Some);
    assert(!members_at(removed.0, key).unwrap().contains(x@));
}

/// A set has no events of its own: the payload `del` is the removal of the
/// key, and every other payload is rejected.
pub proof fn lemma_set_payloads(payload: Seq<char>)
    ensures
        payload == "del"@ ==> WatchEvent::<SetEvent>::decoded(payload) is Some,
        payload != "del"@ ==> WatchEvent::<SetEvent>::decoded(payload) is None,
{
}

/// A set that does not exist has no members: `count` is 0, `contains`
/// reports `false` for every item, and `to_vec` lists nothing.
pub proof fn lemma_a_missing_set_is_empty(store: Contents, set: UniqueSet, x: Vec<u8>)
    requires
        !store.dom().contains(set.key_view()),
    ensures
        ({
            let key = set.key_view();
            &&& step(store, CommandView::SetCount { key }).1 == ReplyView::Integer(0)
            &&& step(store, CommandView::SetContains { key, member: x@ }).1 == ReplyView::Integer(0)
            &&& step(store, CommandView::SetMembers { key }).1 == ReplyView::Members(Set::empty())
            &&& transported(Ok(0u32)) == Ok::<u32, Error>(0u32)
            &&& applied(Ok(0u32)) == Ok::<bool, Error>(false)
        }),
{
}

/// After `add(x)` on a set without members, `to_vec` lists `x` and nothing
/// else.
pub proof fn lemma_to_vec_after_one_add(store: Contents, set: UniqueSet, x: Vec<u8>)
    requires
        members_at(store, set.key_view()) == Some(Set::<Seq<u8>>::empty()),
    ensures
        ({
            let key = set.key_view();
            let added = step(store, CommandView::SetAdd { key, member: x@ });
            let listed = step(added.0, CommandView::SetMembers { key });
            &&& listed.1 == ReplyView::Members(Set::<Seq<u8>>::empty().insert(x@))
            &&& forall|answer: Vec<Vec<u8>>| #[trigger]
                carries_members(answer, listed.1) ==> transported(Ok(answer)) == Ok::<
                    Vec<Vec<u8>>,
                    Error,
                >(answer) && answer.len() == 1 && answer[0]@ == x@
        }),
{
    let key = set.key_view();
    let one = Set::<Seq<u8>>::empty().insert(x@);
    assert(one.finite() && one.len() == 1);
    let added = step(store, CommandView::SetAdd { key, member: x@ });
    assert(members_at(added.0, key) == Some(one));
    let listed = step(added.0, CommandView::SetMembers { key });
    assert forall|answer: Vec<Vec<u8>>| #[trigger] carries_members(answer, listed.1) implies answer.len()
        == 1 && answer[0]@ == x@ by {
        let all = elements(answer@);
        all.unique_seq_to_set();
        assert(all.len() == 1);
        assert(all.to_set().contains(all[0]));
    }
}

} // verus!
