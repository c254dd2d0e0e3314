//! The error type shared by every operation of the crate.
use vstd::prelude::*;
use vstd::std_specs::convert::FromSpecImpl;
use serde_cbor::error::Error as CborError;
use redis::RedisError;

verus! {

/// The error of the `redis` crate, carried through unread.
#[verifier::external_type_specification]
#[verifier::external_body]
pub struct ExRedisError(RedisError);

/// The error of the `serde_cbor` crate, carried through unread.
#[verifier::external_type_specification]
#[verifier::external_body]
pub struct ExCborError(CborError);

/// A failure of a collection operation or of a watcher.
#[derive(Debug)]
pub enum Error {
    /// The remote store, or the connection to it, reported a failure.
    RedisError(RedisError),
    /// An element could not be encoded for storage or decoded after a read.
    SerializationError(CborError),
    /// A watched key produced a notification that its collection kind does
    /// not know.
    InvalidNotification {
        /// The name of the collection kind that rejected the payload.
        collection: String,
        /// The payload as it was received.
        notification: String,
    },
    /// The element that was asked for does not exist.
    NotFound,
    /// The producer of a watcher's notifications is gone.
    Disconnected,
}

impl From<RedisError> for Error {
    fn from(error: RedisError) -> (e: Error) {
        Error::RedisError(error)
    }
}

impl FromSpecImpl<RedisError> for Error {
    open spec fn obeys_from_spec() -> bool {
        true
    }

    open spec fn from_spec(error: RedisError) -> Error {
        Error::RedisError(error)
    }
}

impl From<CborError> for Error {
    fn from(error: CborError) -> (e: Error) {
        Error::SerializationError(error)
    }
}

impl FromSpecImpl<CborError> for Error {
    open spec fn obeys_from_spec() -> bool {
        true
    }

    open spec fn from_spec(error: CborError) -> Error {
        Error::SerializationError(error)
    }
}

} // verus!
