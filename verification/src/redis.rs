//! The short-term memory: a handle on the Redis server that keeps each
//! session's messages.

use vstd::prelude::*;

verus! {

/// A Redis client: connection details from which connections are opened.
#[verifier::external_type_specification]
#[verifier::external_body]
pub struct ExRedisClient(::redis::Client);

/// A handle on the Redis server that holds the sessions' messages.
pub struct RedisClient {
    client: ::redis::Client,
}

impl RedisClient {
    /// A handle over a client whose server has answered.
    pub fn from_client(client: ::redis::Client) -> (c: RedisClient)
        ensures
            c.client() == client,
    {
        RedisClient { client }
    }

    /// The client.
    pub closed spec fn client(&self) -> ::redis::Client {
        self.client
    }

    /// The client, to open connections with.
    pub fn client_ref(&self) -> (c: &::redis::Client)
        ensures
            *c == self.client(),
    {
        &self.client
    }
}

} // verus!
