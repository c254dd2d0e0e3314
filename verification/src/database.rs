//! The entry point: a validated address, and the collections reached through it.
use vstd::prelude::*;
use crate::collections::Collection;
use redis::{Client, RedisError};

verus! {

/// The client of the `redis` crate: a parsed address, not yet a connection.
#[verifier::external_type_specification]
#[verifier::external_body]
pub struct ExClient(Client);

/// Whether `redis::Client::open` accepts `addr` as the address of a store.
pub uninterp spec fn address_accepted(addr: Seq<char>) -> bool;

/// `redis::Client::open` on a string: parses the address and connects to
/// nothing. It fails where the string is no URL, where its scheme is none of
/// the store's, and where a part that the scheme needs is missing or
/// malformed. The outcome depends on the string alone; the address of a
/// local socket is accepted on the platforms that have such sockets.
#[verifier::external_body]
fn open_client(addr: &str) -> (r: Result<Client, RedisError>)
    ensures
        r is Ok <==> address_accepted(addr@),
{
    Client::open(addr)
}

/// A store at a validated address.
pub struct Database {
    client: Client,
}

impl Database {
    /// The client that was made from the address of this database.
    pub closed spec fn opened(&self) -> Client {
        self.client
    }

    /// The database at `addr`.
    ///
    /// The address is checked and nothing more: no connection is opened, so
    /// this succeeds also where no store listens at the address.
    pub fn new(addr: &str) -> (r: Result<Database, RedisError>)
        ensures
            r is Ok <==> address_accepted(addr@),
    {
        match open_client(addr) {
            Ok(client) => Ok(Database { client }),
            Err(e) => Err(e),
        }
    }

    /// The collection of kind `C` with the logical name `name`. Its key is
    /// the namespace of the kind followed by `name` as it stands.
    pub fn get<C: Collection>(&self, name: &str) -> (r: Result<C, RedisError>)
        ensures
            r matches Ok(c) && c.key_view() == C::prefix() + name@,
    {
        C::get(String::from_str(name))
    }

    /// The client from which connections to the store are opened: the one
    /// that was made from the address of this database.
    pub fn client(&self) -> (client: &Client)
        ensures
            *client == self.opened(),
    {
        &self.client
    }
}

} // verus!
