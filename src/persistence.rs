use vstd::prelude::*;

use crate::text::concat;

verus! {

#[verifier::external_type_specification]
#[verifier::external_body]
pub struct ExRedisClient(redis::Client);

#[verifier::external_type_specification]
#[verifier::external_body]
pub struct ExRedisError(redis::RedisError);

/// Whether `redis::Client::open` accepts a connection URL.
pub uninterp spec fn redis_url_accepted(uri: Seq<char>) -> bool;

/// Relies on `redis::Client::open`, which only parses the URL (no connection
/// is made), so whether it succeeds depends on the URL alone.
#[verifier::external_body]
fn open_client(uri: &str) -> (r: Result<redis::Client, redis::RedisError>)
    ensures
        r is Ok == redis_url_accepted(uri@),
{
    redis::Client::open(uri)
}

/// Failures of the state store.
#[derive(Debug)]
pub enum Error {
    /// The Redis client failed.
    Redis(redis::RedisError),
    /// A required environment variable is missing.
    EnvVar { name: String },
}

/// A key-value state store.
pub trait KV {
    fn set(&self, key: &str, val: &str) -> Result<(), Error>;

    fn get(&self, key: &str) -> Result<Option<String>, Error>;
}

/// A store that keeps nothing: writes succeed and every read finds nothing.
pub struct NoOp;

impl KV for NoOp {
    fn set(&self, _key: &str, _val: &str) -> (r: Result<(), Error>) {
        Ok(())
    }

    fn get(&self, _key: &str) -> (r: Result<Option<String>, Error>) {
        Ok(None)
    }
}

/// Name of the environment variable that holds the Redis URL.
pub const KV_URL_VAR: &'static str = "KV_URL";

/// The URL with the plain `redis://` scheme turned into the TLS scheme
/// `rediss://` when `ensure_tls` is set; any other URL is kept.
pub open spec fn tls_url_of(uri: Seq<char>, ensure_tls: bool) -> Seq<char> {
    if ensure_tls && uri.len() >= 8 && uri.take(8) == "redis://"@ {
        "rediss://"@ + uri.skip(8)
    } else {
        uri
    }
}

/// Rewrites `redis://` to `rediss://` when TLS is to be ensured.
pub fn tls_url(uri: &str, ensure_tls: bool) -> (r: String)
    ensures
        r@ == tls_url_of(uri@, ensure_tls),
{
    proof {
        reveal_strlit("redis://");
        reveal_strlit("rediss://");
    }
    let n = uri.unicode_len();
    if ensure_tls && n >= 8 && crate::text::str_eq(uri.substring_char(0, 8), "redis://") {
        assert(uri@.subrange(0, 8) =~= uri@.take(8));
        assert(uri@.subrange(8, n as int) =~= uri@.skip(8));
        concat("rediss://", uri.substring_char(8, n))
    } else {
        proof {
            if ensure_tls && n >= 8 {
                assert(uri@.subrange(0, 8) =~= uri@.take(8));
            }
        }
        String::from_str(uri)
    }
}

/// A state store kept in Redis.
pub struct Redis {
    client: redis::Client,
}

impl Redis {
    /// A store for the Redis server at `uri`; fails when the Redis client
    /// does not accept the URL.
    pub fn new(uri: &str) -> (r: Result<Redis, Error>)
        ensures
            r is Ok == redis_url_accepted(uri@),
            r is Err ==> r->Err_0 is Redis,
    {
        match open_client(uri) {
            Ok(client) => Ok(Redis { client }),
            Err(e) => Err(Error::Redis(e)),
        }
    }

    /// A store for the Redis URL held by the `KV_URL` environment variable
    /// (`kv_url`, `None` when it is unset), switched to TLS when `ensure_tls`
    /// is set.
    pub fn from_env(kv_url: Option<String>, ensure_tls: bool) -> (r: Result<Redis, Error>)
        ensures
            match kv_url {
                None => r matches Err(Error::EnvVar { name }) && name@ == KV_URL_VAR@,
                Some(u) => (r is Ok == redis_url_accepted(tls_url_of(u@, ensure_tls))) && (r is Err
                    ==> r->Err_0 is Redis),
            },
    {
        match kv_url {
            None => Err(Error::EnvVar { name: String::from_str(KV_URL_VAR) }),
            Some(u) => {
                let uri = tls_url(u.as_str(), ensure_tls);
                Redis::new(uri.as_str())
            },
        }
    }

    /// The Redis client, for the code that talks to the server.
    pub fn client(&self) -> &redis::Client {
        &self.client
    }
}

} // verus!
