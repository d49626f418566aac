//! A fixed-window rate limiter backend that keeps its counters in Redis, so
//! that independent processes can share one logical limit.
//!
//! Atomicity per key is delegated to the store's own transactional pipeline;
//! no client-side locking is used. This module states the exact commands of
//! each pipeline as data ([`RedisCmd`]) and computes the outcome of a
//! request from the store's replies ([`RedisBackend::request_outcome`]); the
//! embedding layer owns the connection, sends the pipelines and hands the
//! replies back. The counter is a 63-bit saturating bit-field, so a
//! pathological burst cannot wrap it, and a key's expiry is only ever set
//! where it has none yet.

use vstd::prelude::*;

use crate::backend::{Decision, SimpleOutput};

verus! {

#[verifier::external_type_specification]
#[verifier::external_body]
pub struct ExConnectionManager(redis::aio::ConnectionManager);

#[verifier::external_type_specification]
#[verifier::external_body]
pub struct ExRedisError(redis::RedisError);

/// A shared-store backend failure.
#[derive(Debug)]
pub enum Error {
    /// The transport to the store failed; propagated untouched.
    Redis(redis::RedisError),
    /// The store reported a negative time-to-live for a rate limit key: the
    /// key exists without an expiry, so something outside this protocol
    /// wrote it. Fatal for the call, and distinct from a transport failure.
    NegativeTtl,
}

/// One argument of a store command.
pub enum CommandArg {
    Word(String),
    Unsigned(u64),
    Signed(i64),
}

/// One store command of a pipeline, and whether its reply is discarded.
pub struct RedisCmd {
    pub args: Vec<CommandArg>,
    pub ignore: bool,
}

pub open spec fn is_word(a: CommandArg, w: Seq<char>) -> bool {
    a matches CommandArg::Word(s) && s@ == w
}

pub open spec fn is_uint(a: CommandArg, v: u64) -> bool {
    a matches CommandArg::Unsigned(x) && x == v
}

pub open spec fn is_int(a: CommandArg, v: i64) -> bool {
    a matches CommandArg::Signed(x) && x == v
}

fn word(w: &str) -> (a: CommandArg)
    ensures
        is_word(a, w@),
{
    CommandArg::Word(w.to_owned())
}

/// The key actually sent to the store: the configured prefix, if any, then
/// the caller's key.
pub open spec fn prefixed_key(prefix: Option<Seq<char>>, key: Seq<char>) -> Seq<char> {
    match prefix {
        None => key,
        Some(p) => p + key,
    }
}

/// The store key under an optional configured prefix: the prefix, if any,
/// then the caller's key.
pub fn prefix_key(key_prefix: Option<&str>, key: &str) -> (r: String)
    ensures
        r@ == prefixed_key(
            match key_prefix {
                Some(p) => Some(p@),
                None => None::<Seq<char>>,
            },
            key@,
        ),
{
    match key_prefix {
        None => key.to_owned(),
        Some(prefix) => {
            let mut r = prefix.to_owned();
            r.append(key);
            r
        },
    }
}

/// A Fixed Window rate limiter backend that stores its data in Redis.
pub struct RedisBackend {
    connection: redis::aio::ConnectionManager,
    key_prefix: Option<String>,
}

impl RedisBackend {
    /// The configured key prefix.
    pub closed spec fn key_prefix_spec(&self) -> Option<Seq<char>> {
        match self.key_prefix {
            Some(p) => Some(p@),
            None => None,
        }
    }

    /// Create a backend builder around an established connection.
    pub fn builder(connection: redis::aio::ConnectionManager) -> (b: Builder)
        ensures
            b.key_prefix_spec() is None,
    {
        Builder { connection, key_prefix: None }
    }

    /// The connection this backend was built around, for the layer that
    /// sends the pipelines.
    pub fn connection(&self) -> &redis::aio::ConnectionManager {
        &self.connection
    }

    /// The store key for `key`: the prefix (if set) is applied here, so
    /// callers never prepend it themselves.
    pub fn make_key(&self, key: &str) -> (r: String)
        ensures
            r@ == prefixed_key(self.key_prefix_spec(), key@),
    {
        match &self.key_prefix {
            None => prefix_key(None, key),
            Some(prefix) => prefix_key(Some(prefix.as_str()), key),
        }
    }

    /// The single atomic pipeline of one request on `key`: increment the
    /// 63-bit saturating counter and read it back, set the key to expire in
    /// `interval_secs` seconds only if it has no expiry yet (reply
    /// discarded), then read the key's time-to-live.
    pub fn request_commands(&self, key: &str, interval_secs: u64) -> (r: Vec<RedisCmd>)
        ensures
            r@.len() == 3,
            r@[0].args@.len() == 11,
            is_word(r@[0].args@[0], "BITFIELD"@),
            is_word(r@[0].args@[1], prefixed_key(self.key_prefix_spec(), key@)),
            is_word(r@[0].args@[2], "OVERFLOW"@),
            is_word(r@[0].args@[3], "SAT"@),
            is_word(r@[0].args@[4], "INCRBY"@),
            is_word(r@[0].args@[5], "u63"@),
            is_uint(r@[0].args@[6], 0),
            is_int(r@[0].args@[7], 1),
            is_word(r@[0].args@[8], "GET"@),
            is_word(r@[0].args@[9], "u63"@),
            is_uint(r@[0].args@[10], 0),
            !r@[0].ignore,
            r@[1].args@.len() == 4,
            is_word(r@[1].args@[0], "EXPIRE"@),
            is_word(r@[1].args@[1], prefixed_key(self.key_prefix_spec(), key@)),
            is_uint(r@[1].args@[2], interval_secs),
            is_word(r@[1].args@[3], "NX"@),
            r@[1].ignore,
            r@[2].args@.len() == 2,
            is_word(r@[2].args@[0], "TTL"@),
            is_word(r@[2].args@[1], prefixed_key(self.key_prefix_spec(), key@)),
            !r@[2].ignore,
    {
        let k = self.make_key(key);
        let mut bitfield: Vec<CommandArg> = Vec::new();
        bitfield.push(word("BITFIELD"));
        bitfield.push(CommandArg::Word(k.clone()));
        bitfield.push(word("OVERFLOW"));
        bitfield.push(word("SAT"));
        bitfield.push(word("INCRBY"));
        bitfield.push(word("u63"));
        bitfield.push(CommandArg::Unsigned(0));
        bitfield.push(CommandArg::Signed(1));
        bitfield.push(word("GET"));
        bitfield.push(word("u63"));
        bitfield.push(CommandArg::Unsigned(0));
        let mut expire: Vec<CommandArg> = Vec::new();
        expire.push(word("EXPIRE"));
        expire.push(CommandArg::Word(k.clone()));
        expire.push(CommandArg::Unsigned(interval_secs));
        expire.push(word("NX"));
        let mut ttl: Vec<CommandArg> = Vec::new();
        ttl.push(word("TTL"));
        ttl.push(CommandArg::Word(k));
        let mut r: Vec<RedisCmd> = Vec::new();
        r.push(RedisCmd { args: bitfield, ignore: false });
        r.push(RedisCmd { args: expire, ignore: true });
        r.push(RedisCmd { args: ttl, ignore: false });
        r
    }

    /// The single atomic pipeline of one rollback on `key`: decrement the
    /// saturating counter, which cannot go below zero, then set the key to
    /// expire immediately only if it has no expiry yet, so a rollback on an
    /// already-gone key cannot fabricate one that never expires.
    pub fn rollback_commands(&self, key: &str) -> (r: Vec<RedisCmd>)
        ensures
            r@.len() == 2,
            r@[0].args@.len() == 8,
            is_word(r@[0].args@[0], "BITFIELD"@),
            is_word(r@[0].args@[1], prefixed_key(self.key_prefix_spec(), key@)),
            is_word(r@[0].args@[2], "OVERFLOW"@),
            is_word(r@[0].args@[3], "SAT"@),
            is_word(r@[0].args@[4], "INCRBY"@),
            is_word(r@[0].args@[5], "u63"@),
            is_uint(r@[0].args@[6], 0),
            is_int(r@[0].args@[7], -1i64),
            !r@[0].ignore,
            r@[1].args@.len() == 4,
            is_word(r@[1].args@[0], "EXPIRE"@),
            is_word(r@[1].args@[1], prefixed_key(self.key_prefix_spec(), key@)),
            is_uint(r@[1].args@[2], 0),
            is_word(r@[1].args@[3], "NX"@),
            r@[1].ignore,
    {
        let k = self.make_key(key);
        let mut bitfield: Vec<CommandArg> = Vec::new();
        bitfield.push(word("BITFIELD"));
        bitfield.push(CommandArg::Word(k.clone()));
        bitfield.push(word("OVERFLOW"));
        bitfield.push(word("SAT"));
        bitfield.push(word("INCRBY"));
        bitfield.push(word("u63"));
        bitfield.push(CommandArg::Unsigned(0));
        bitfield.push(CommandArg::Signed(-1i64));
        let mut expire: Vec<CommandArg> = Vec::new();
        expire.push(word("EXPIRE"));
        expire.push(CommandArg::Word(k));
        expire.push(CommandArg::Unsigned(0));
        expire.push(word("NX"));
        let mut r: Vec<RedisCmd> = Vec::new();
        r.push(RedisCmd { args: bitfield, ignore: false });
        r.push(RedisCmd { args: expire, ignore: true });
        r
    }

    /// The command that removes `key`'s bucket outright.
    pub fn remove_key_command(&self, key: &str) -> (r: RedisCmd)
        ensures
            r.args@.len() == 2,
            is_word(r.args@[0], "DEL"@),
            is_word(r.args@[1], prefixed_key(self.key_prefix_spec(), key@)),
            !r.ignore,
    {
        let k = self.make_key(key);
        let mut args: Vec<CommandArg> = Vec::new();
        args.push(word("DEL"));
        args.push(CommandArg::Word(k));
        RedisCmd { args, ignore: false }
    }
}

/// `ttl_secs` whole seconds in milliseconds, saturating.
pub open spec fn ttl_millis(ttl_secs: u64) -> u64 {
    if ttl_secs * 1000 <= u64::MAX {
        (ttl_secs * 1000) as u64
    } else {
        u64::MAX
    }
}

/// The reset instant reported for a key whose time-to-live is `ttl_secs`
/// seconds at time `now_ms` (saturating at the clock's end of time).
pub open spec fn reset_at(now_ms: u64, ttl_secs: i64) -> u64
    recommends
        ttl_secs >= 0,
{
    now_ms.saturating_add(ttl_millis(ttl_secs as u64))
}

impl RedisBackend {
    /// The decision and output of one request, computed from the store's
    /// replies: the post-increment count and the key's time-to-live. A
    /// negative time-to-live is the protocol violation [`Error::NegativeTtl`];
    /// otherwise the call is allowed exactly when the count fits the limit,
    /// and the output reports the remaining quota and the reset instant.
    pub fn request_outcome(max_requests: u64, count: u64, ttl_secs: i64, now_ms: u64) -> (r: Result<
        (Decision, SimpleOutput),
        Error,
    >)
        ensures
            ttl_secs < 0 ==> r matches Err(Error::NegativeTtl),
            ttl_secs >= 0 ==> (r matches Ok((d, out)) && d == (if count <= max_requests {
                Decision::Allowed
            } else {
                Decision::Denied
            }) && out == (SimpleOutput {
                limit: max_requests,
                remaining: max_requests.saturating_sub(count),
                reset: reset_at(now_ms, ttl_secs),
            })),
    {
        if ttl_secs < 0 {
            Err(Error::NegativeTtl)
        } else {
            let t = ttl_secs as u64;
            let tm: u64 = if t <= u64::MAX / 1000 {
                t * 1000
            } else {
                u64::MAX
            };
            proof {
                assert(tm == ttl_millis(t)) by (nonlinear_arith)
                    requires
                        tm == (if t <= u64::MAX / 1000 {
                            (t * 1000) as u64
                        } else {
                            u64::MAX
                        }),
                ;
            }
            let reset = now_ms.saturating_add(tm);
            let output = SimpleOutput {
                limit: max_requests,
                remaining: max_requests.saturating_sub(count),
                reset,
            };
            Ok((Decision::from_allowed(count <= max_requests), output))
        }
    }
}

pub struct Builder {
    connection: redis::aio::ConnectionManager,
    key_prefix: Option<String>,
}

impl Builder {
    /// The key prefix this builder will configure.
    pub closed spec fn key_prefix_spec(&self) -> Option<Seq<char>> {
        match self.key_prefix {
            Some(p) => Some(p@),
            None => None,
        }
    }

    /// Apply an optional prefix to all rate limit keys given to this
    /// backend.
    ///
    /// This may be useful when the Redis instance is being used for other
    /// purposes; the prefix is used as a 'namespace' to avoid collision
    /// with other caches or keys inside Redis.
    pub fn key_prefix(self, key_prefix: Option<&str>) -> (b: Self)
        ensures
            b.key_prefix_spec() == (match key_prefix {
                Some(p) => Some(p@),
                None => None::<Seq<char>>,
            }),
    {
        match key_prefix {
            Some(p) => Builder { key_prefix: Some(p.to_owned()), ..self },
            None => Builder { key_prefix: None, ..self },
        }
    }

    pub fn build(self) -> (backend: RedisBackend)
        ensures
            backend.key_prefix_spec() == self.key_prefix_spec(),
    {
        RedisBackend { connection: self.connection, key_prefix: self.key_prefix }
    }
}

} // verus!
