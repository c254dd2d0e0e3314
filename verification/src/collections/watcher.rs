//! The bridge that carries the notifications of a watched key from the
//! listener that receives them to the stream that hands them out.
//!
//! A bridge has two ends over one unbounded channel. The [`Notifier`] belongs
//! to the listener: it decodes each payload and queues the outcome. The
//! [`Watcher`] belongs to the consumer: a poll takes one outcome if one is
//! queued and never waits. Nothing bounds the queue, so a key that changes
//! faster than its watcher is polled makes the queue grow.
use vstd::prelude::*;
use crate::collections::{KindEvent, WatchEvent};
use crate::decimal::{decimal, push_decimal};
use crate::error::Error;
use crossbeam_channel::{Receiver, Sender};

verus! {

/// The receiving end of a channel of the `crossbeam_channel` crate.
#[verifier::external_type_specification]
#[verifier::external_body]
#[verifier::reject_recursive_types(T)]
pub struct ExReceiver<T>(Receiver<T>);

/// The sending end of a channel of the `crossbeam_channel` crate.
#[verifier::external_type_specification]
#[verifier::external_body]
#[verifier::reject_recursive_types(T)]
pub struct ExSender<T>(Sender<T>);

/// What one attempt to take a message from a channel brought.
#[derive(Debug)]
pub enum Received<M> {
    /// A message was queued, and this is the oldest.
    Message(M),
    /// Nothing is queued, and the sender is still there.
    Empty,
    /// Nothing is queued, and no sender is left.
    Disconnected,
}

/// The state of a value that is awaited.
#[derive(Debug, Clone, Copy, PartialEq, Eq)]
pub enum Async<T> {
    /// The value is there.
    Ready(T),
    /// The value is not there yet.
    NotReady,
}

/// `crossbeam_channel::unbounded`: makes a channel without a bound and
/// returns its two ends. Nothing is claimed of them.
#[verifier::external_body]
fn unbounded_channel<M>() -> (ends: (Sender<M>, Receiver<M>)) {
    crossbeam_channel::unbounded()
}

/// `crossbeam_channel::Receiver::try_recv`: takes the oldest queued message
/// without waiting. Which of the three outcomes comes depends on what other
/// threads did, so nothing is claimed of it.
#[verifier::external_body]
fn try_receive<M>(receiver: &Receiver<M>) -> (received: Received<M>) {
    match receiver.try_recv() {
        Ok(message) => Received::Message(message),
        Err(crossbeam_channel::TryRecvError::Empty) => Received::Empty,
        Err(crossbeam_channel::TryRecvError::Disconnected) => Received::Disconnected,
    }
}

/// `crossbeam_channel::Sender::send`: queues a message. Where no receiver is
/// left the message is not queued and comes back, which is all that is
/// claimed.
#[verifier::external_body]
fn send_message<M>(sender: &Sender<M>, message: M) -> (sent: Result<(), M>)
    ensures
        sent matches Err(back) ==> back == message,
{
    match sender.send(message) {
        Ok(()) => Ok(()),
        Err(error) => Err(error.0),
    }
}

/// The channel on which the store announces the changes of `key` in the
/// database numbered `db`.
pub open spec fn keyspace_channel(db: i64, key: Seq<char>) -> Seq<char> {
    "__keyspace@"@ + decimal(db as int) + "__:"@ + key
}

/// The name of the channel to subscribe to for the changes of `key` in the
/// database numbered `db`.
pub fn channel_name(db: i64, key: &str) -> (name: String)
    ensures
        name@ == keyspace_channel(db, key@),
{
    let mut name = String::from_str("__keyspace@");
    push_decimal(&mut name, db);
    name.append("__:");
    name.append(key);
    name
}

/// What a notifier queues for a payload: the decoded event, or the error of
/// a payload that the collection kind does not know.
pub open spec fn delivers<T: KindEvent>(
    payload: Seq<char>,
    delivery: Result<Option<WatchEvent<T>>, Error>,
) -> bool {
    match delivery {
        Ok(Some(event)) => WatchEvent::<T>::decoded(payload) == Some(event),
        Ok(None) => false,
        Err(Error::InvalidNotification { collection, notification }) => {
            &&& WatchEvent::<T>::decoded(payload) is None
            &&& collection@ == T::kind()
            &&& notification@ == payload
        },
        Err(_) => false,
    }
}

/// What a poll returns for what the channel brought: a queued event is
/// ready, a queued error is the poll's error, an empty channel is not ready,
/// and a channel without a sender is [`Error::Disconnected`].
pub open spec fn polled<T>(received: Received<Result<Option<WatchEvent<T>>, Error>>) -> Result<
    Async<Option<WatchEvent<T>>>,
    Error,
> {
    match received {
        Received::Message(Ok(event)) => Ok(Async::Ready(event)),
        Received::Message(Err(error)) => Err(error),
        Received::Empty => Ok(Async::NotReady),
        Received::Disconnected => Err(Error::Disconnected),
    }
}

/// What a watcher has taken from the channel after one more attempt: a
/// message that the attempt brought stands behind the ones taken before, and
/// an attempt that brought none changes nothing.
pub open spec fn taken_after<M>(taken: Seq<M>, received: Received<M>) -> Seq<M> {
    match received {
        Received::Message(message) => taken.push(message),
        Received::Empty => taken,
        Received::Disconnected => taken,
    }
}

/// The listener's end of a bridge.
#[verifier::reject_recursive_types(T)]
pub struct Notifier<T> {
    sender: Sender<Result<Option<WatchEvent<T>>, Error>>,
    queued: Ghost<Seq<Result<Option<WatchEvent<T>>, Error>>>,
}

/// A watcher that hands out the notifications of one key.
#[verifier::reject_recursive_types(T)]
pub struct Watcher<T> {
    receiver: Receiver<Result<Option<WatchEvent<T>>, Error>>,
    taken: Ghost<Seq<Result<Option<WatchEvent<T>>, Error>>>,
}

impl<T> Notifier<T> {
    /// The outcomes that the channel has accepted from this notifier, the
    /// oldest first.
    pub closed spec fn queued(&self) -> Seq<Result<Option<WatchEvent<T>>, Error>> {
        self.queued@
    }
}

impl<T> Watcher<T> {
    /// The outcomes that this watcher has taken from the channel, the oldest
    /// first.
    pub closed spec fn taken(&self) -> Seq<Result<Option<WatchEvent<T>>, Error>> {
        self.taken@
    }
}

impl<T: KindEvent> Notifier<T> {
    /// Decodes the payload of one notification into what is queued for it.
    pub fn delivery(payload: &str) -> (delivery: Result<Option<WatchEvent<T>>, Error>)
        ensures
            delivers::<T>(payload@, delivery),
    {
        match WatchEvent::<T>::from_str(payload) {
            Ok(event) => Ok(Some(event)),
            Err(error) => Err(error),
        }
    }

    /// Decodes the payload of one notification and queues the outcome for
    /// the watcher, behind the outcomes queued before. A payload that cannot
    /// be decoded is queued as an error and is no failure of this call: the
    /// only failure is [`Error::Disconnected`], where the watcher is gone,
    /// and then nothing is queued.
    pub fn notify(&mut self, payload: &str) -> (r: Result<(), Error>)
        ensures
            match r {
                Ok(_) => exists|outcome: Result<Option<WatchEvent<T>>, Error>|
                    {
                        &&& delivers::<T>(payload@, outcome)
                        &&& final(self).queued() == old(self).queued().push(outcome)
                    },
                Err(_) => {
                    &&& r == Err::<(), Error>(Error::Disconnected)
                    &&& final(self).queued() == old(self).queued()
                },
            },
    {
        let delivery = Self::delivery(payload);
        let ghost outcome = delivery;
        match send_message(&self.sender, delivery) {
            Ok(()) => {
                self.queued = Ghost(self.queued@.push(outcome));
                assert(delivers::<T>(payload@, outcome));
                Ok(())
            },
            Err(_) => Err(Error::Disconnected),
        }
    }
}

impl<T: KindEvent> Watcher<T> {
    /// Makes a bridge and returns its two ends. The bridge is new: nothing
    /// is queued through its notifier, and nothing is taken by its watcher.
    pub fn watch() -> (ends: (Notifier<T>, Watcher<T>))
        ensures
            ends.0.queued() == Seq::<Result<Option<WatchEvent<T>>, Error>>::empty(),
            ends.1.taken() == Seq::<Result<Option<WatchEvent<T>>, Error>>::empty(),
    {
        let (sender, receiver) = unbounded_channel();
        (
            Notifier { sender, queued: Ghost(Seq::empty()) },
            Watcher { receiver, taken: Ghost(Seq::empty()) },
        )
    }

    /// What a poll returns for what the channel brought.
    pub fn decide(received: Received<Result<Option<WatchEvent<T>>, Error>>) -> (r: Result<
        Async<Option<WatchEvent<T>>>,
        Error,
    >)
        ensures
            r == polled(received),
    {
        match received {
            Received::Message(Ok(event)) => Ok(Async::Ready(event)),
            Received::Message(Err(error)) => Err(error),
            Received::Empty => Ok(Async::NotReady),
            Received::Disconnected => Err(Error::Disconnected),
        }
    }

    /// Takes the next queued outcome without waiting, and hands it out: the
    /// result is decided by what the channel brought, and an outcome that it
    /// brought stands behind the ones taken before. On `Ok(Async::NotReady)`
    /// the caller is to arrange its wake-up and poll again when woken.
    pub fn poll(&mut self) -> (r: Result<Async<Option<WatchEvent<T>>>, Error>)
        ensures
            exists|received: Received<Result<Option<WatchEvent<T>>, Error>>|
                {
                    &&& r == polled(received)
                    &&& final(self).taken() == taken_after(old(self).taken(), received)
                },
    {
        let received = try_receive(&self.receiver);
        let ghost brought = received;
        self.taken = Ghost(taken_after(self.taken@, brought));
        let r = Self::decide(received);
        assert(r == polled(brought) && self.taken() == taken_after(old(self).taken(), brought));
        r
    }
}

} // verus!
