//! Collections stored under namespaced keys, and the events of watched keys.
use vstd::prelude::*;
use crate::command::{Command, CommandView};
use crate::error::Error;
use crate::collections::watcher::{channel_name, keyspace_channel};
use crate::store::{step, Contents, ReplyView};
use redis::RedisError;

pub mod list;
pub mod set;
pub mod watcher;

pub use list::List;
pub use list::ListEvent;
pub use set::SetEvent;
pub use set::UniqueSet;
pub use watcher::Async;
pub use watcher::Notifier;
pub use watcher::Received;
pub use watcher::Watcher;

verus! {

/// Whether two strings hold the same characters.
pub fn same_text(a: &str, b: &str) -> (same: bool)
    ensures
        same == (a@ == b@),
{
    let left = String::from_str(a);
    let right = String::from_str(b);
    left == right
}

/// The events of one collection kind, decoded from notification payloads.
pub trait KindEvent: Sized {
    /// The name of the collection kind, as it appears in errors.
    spec fn kind() -> Seq<char>;

    /// The event that a payload stands for, if the kind knows the payload.
    spec fn decoded(payload: Seq<char>) -> Option<Self>;

    /// Decodes a payload into an event of this kind.
    ///
    /// A payload that the kind does not know gives
    /// [`Error::InvalidNotification`] with the kind's name and the payload.
    fn from_str(s: &str) -> (r: Result<Self, Error>)
        ensures
            match r {
                Ok(event) => Self::decoded(s@) == Some(event),
                Err(Error::InvalidNotification { collection, notification }) => {
                    &&& Self::decoded(s@) is None
                    &&& collection@ == Self::kind()
                    &&& notification@ == s@
                },
                Err(_) => false,
            },
    ;
}

/// The events that a key of any kind can have.
#[derive(Debug, Clone, Copy, PartialEq, Eq, Structural)]
pub enum GenericWatchEvent {
    /// The key was deleted, with what it held.
    Remove,
}

/// What happened to a watched key.
#[derive(Debug, Clone, PartialEq, Eq)]
pub enum WatchEvent<T> {
    /// An event that a key of any kind can have.
    Generic(GenericWatchEvent),
    /// An event of the kind of collection that the key holds.
    TypeSpecific(T),
}

impl<T: KindEvent> WatchEvent<T> {
    /// The event that a payload stands for: `del` is the removal of the key
    /// for every kind, and every other payload is left to the kind.
    pub open spec fn decoded(payload: Seq<char>) -> Option<WatchEvent<T>> {
        if payload == "del"@ {
            Some(WatchEvent::Generic(GenericWatchEvent::Remove))
        } else {
            match T::decoded(payload) {
                Some(event) => Some(WatchEvent::TypeSpecific(event)),
                None => None,
            }
        }
    }

    /// Decodes a notification payload.
    pub fn from_str(s: &str) -> (r: Result<WatchEvent<T>, Error>)
        ensures
            match r {
                Ok(event) => Self::decoded(s@) == Some(event),
                Err(Error::InvalidNotification { collection, notification }) => {
                    &&& Self::decoded(s@) is None
                    &&& collection@ == T::kind()
                    &&& notification@ == s@
                },
                Err(_) => false,
            },
    {
        if same_text(s, "del") {
            Ok(WatchEvent::Generic(GenericWatchEvent::Remove))
        } else {
            match T::from_str(s) {
                Ok(event) => Ok(WatchEvent::TypeSpecific(event)),
                Err(error) => Err(error),
            }
        }
    }
}

/// A collection kept in the remote store under a namespaced key.
///
/// A collection is a handle: it holds no element, and making one contacts
/// nothing.
pub trait Collection: Sized {
    /// The events that are specific to this kind of collection.
    type WatchEvent: KindEvent;

    /// The namespace of the kind, which begins every key of the kind.
    spec fn prefix() -> Seq<char>;

    /// The key under which the collection is stored.
    spec fn key_view(&self) -> Seq<char>;

    /// The collection of this kind with the logical name `key`.
    fn get(key: String) -> (r: Result<Self, RedisError>)
        ensures
            r matches Ok(c) && c.key_view() == Self::prefix() + key@,
    ;

    /// The namespaced key.
    fn key(&self) -> (key: String)
        ensures
            key@ == self.key_view(),
    ;
}

/// A reply of the store as the caller gets it: what the store answered, or
/// the failure of the transport as a [`Error::RedisError`].
pub open spec fn transported<A>(reply: Result<A, RedisError>) -> Result<A, Error> {
    match reply {
        Ok(answer) => Ok(answer),
        Err(e) => Err(Error::RedisError(e)),
    }
}

/// A reply of the store whose content the caller does not need: success
/// whatever the store answered, or the failure of the transport.
pub open spec fn acknowledged<A>(reply: Result<A, RedisError>) -> Result<(), Error> {
    match reply {
        Ok(_) => Ok(()),
        Err(e) => Err(Error::RedisError(e)),
    }
}

/// What the store answers to the deletion of a key: the number of keys that
/// it deleted, none where the key did not exist. Both count as success.
pub open spec fn removed(reply: Result<i64, RedisError>) -> Result<(), Error> {
    match reply {
        Ok(_) => Ok(()),
        Err(e) => Err(Error::RedisError(e)),
    }
}

/// Operations that every kind of key has.
pub trait Key<T: KindEvent>: Sized {
    /// The key that the operations address.
    spec fn stored_key(&self) -> Seq<char>;

    /// The command that removes this key from the store.
    fn remove(self) -> (command: Command)
        ensures
            command@ == (CommandView::Delete { key: self.stored_key() }),
    ;

    /// Reads the store's answer to [`Key::remove`].
    fn remove_reply(reply: Result<i64, RedisError>) -> (r: Result<(), Error>)
        ensures
            r == removed(reply),
    ;

    /// Makes a bridge for the notifications of this key: the notifier for
    /// the listener that subscribes to [`Key::channel`], and the watcher that
    /// hands out what the listener receives. Each call makes a bridge of its
    /// own, through which nothing is queued and nothing is taken yet.
    fn watch(&self) -> (ends: (Notifier<T>, Watcher<T>))
        ensures
            ends.0.queued() == Seq::<Result<Option<WatchEvent<T>>, Error>>::empty(),
            ends.1.taken() == Seq::<Result<Option<WatchEvent<T>>, Error>>::empty(),
    ;

    /// The name of the channel on which the store announces the changes of
    /// this key in the database numbered `db`.
    fn channel(&self, db: i64) -> (name: String)
        ensures
            name@ == keyspace_channel(db, self.stored_key()),
    ;
}

impl<C: Collection> Key<C::WatchEvent> for C {
    open spec fn stored_key(&self) -> Seq<char> {
        self.key_view()
    }

    fn remove(self) -> (command: Command) {
        Command::Delete { key: self.key() }
    }

    fn remove_reply(reply: Result<i64, RedisError>) -> (r: Result<(), Error>) {
        match reply {
            Ok(_) => Ok(()),
            Err(e) => Err(Error::RedisError(e)),
        }
    }

    fn watch(&self) -> (ends: (Notifier<C::WatchEvent>, Watcher<C::WatchEvent>)) {
        Watcher::<C::WatchEvent>::watch()
    }

    fn channel(&self, db: i64) -> (name: String) {
        let key = self.key();
        channel_name(db, key.as_str())
    }
}

/// The payload `del` is the removal of the key, whatever kind of collection
/// the key holds.
pub proof fn lemma_del_is_remove<T: KindEvent>()
    ensures
        WatchEvent::<T>::decoded("del"@) == Some(
            WatchEvent::<T>::Generic(GenericWatchEvent::Remove),
        ),
{
}

/// The removal of a key succeeds whether or not the key exists: the store
/// answers with the number of keys deleted, 1 or 0, and either reads as
/// success. After it the key is not there, so that a second removal finds
/// nothing and succeeds as well.
pub proof fn lemma_remove_is_idempotent<C: Collection>(store: Contents, collection: C)
    ensures
        ({
            let key = collection.key_view();
            let once = step(store, CommandView::Delete { key });
            let twice = step(once.0, CommandView::Delete { key });
            &&& once.1 == ReplyView::Integer(if store.dom().contains(key) {
                1int
            } else {
                0int
            })
            &&& !once.0.dom().contains(key)
            &&& twice.1 == ReplyView::Integer(0)
            &&& twice.0 == once.0
            &&& forall|n: i64| #[trigger] removed(Ok(n)) == Ok::<(), Error>(())
        }),
{
}

} // verus!
