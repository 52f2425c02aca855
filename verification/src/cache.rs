//! The challenge cache: a TTL-bounded store of issued puzzle parameters
//! and one-time redemption tokens, with at-most-once verification.
//!
//! The puzzle and token namespaces are disjoint maps. Expiry is explicit:
//! inserts return the deadline at which the runtime should fire the
//! matching `expire_*` call, and reads judge freshness against the clock
//! value the caller supplies.

use vstd::prelude::*;

use crate::kv::KvPair;
use crate::kv::kv_find;
use crate::kv::kv_insert;
use crate::kv::kv_map;
use crate::kv::kv_remove;
use crate::kv::kv_wf;
use crate::kv::lemma_kv_map_absent;
use crate::kv::lemma_kv_map_index;
use crate::kv::lemma_kv_map_remove;
use crate::messages::CachePoW;
use crate::messages::CacheResult;
use crate::messages::DeleteCaptchaResult;
use crate::messages::DeletePoW;
use crate::messages::RetrivePoW;
use crate::messages::VerifyCaptchaResult;

verus! {

/// An issued puzzle as the cache holds it.
#[derive(PartialEq, Eq, Debug)]
pub struct CachedPoWConfig {
    pub key: String,
    pub difficulty_factor: u32,
    pub duration: u64,
}

/// A stored puzzle with its expiry deadline (seconds).
pub struct PowEntry {
    pub config: CachedPoWConfig,
    pub expiry: u64,
}

/// A stored token's site key with its expiry deadline (seconds).
pub struct TokenEntry {
    pub key: String,
    pub expiry: u64,
}

/// Cache transition: what storing a puzzle at time `now` does to the
/// puzzle map.
pub open spec fn spec_cache_pow(
    m: Map<Seq<char>, PowEntry>,
    msg: CachePoW,
    now: u64,
) -> Map<Seq<char>, PowEntry> {
    m.insert(
        msg.string@,
        PowEntry {
            config: CachedPoWConfig {
                key: msg.key,
                difficulty_factor: msg.difficulty_factor,
                duration: msg.duration,
            },
            expiry: (now + msg.duration) as u64,
        },
    )
}

/// What a read-and-remove returns: the stored puzzle when it is present
/// and unexpired at `now`.
pub open spec fn spec_retrieve_pow(
    m: Map<Seq<char>, PowEntry>,
    challenge: Seq<char>,
    now: u64,
) -> Option<CachedPoWConfig> {
    if m.contains_key(challenge) && now < m[challenge].expiry {
        Some(m[challenge].config)
    } else {
        None
    }
}

/// Cache transition: what storing a token at time `now` does to the token
/// map.
pub open spec fn spec_cache_result(
    m: Map<Seq<char>, TokenEntry>,
    msg: CacheResult,
    now: u64,
) -> Map<Seq<char>, TokenEntry> {
    m.insert(msg.token@, TokenEntry { key: msg.key, expiry: (now + msg.duration) as u64 })
}

/// Whether a verification succeeds: the token is present, unexpired at
/// `now`, and was stored with the supplied site key.
pub open spec fn spec_verify(
    m: Map<Seq<char>, TokenEntry>,
    token: Seq<char>,
    key: Seq<char>,
    now: u64,
) -> bool {
    m.contains_key(token) && now < m[token].expiry && m[token].key@ == key
}

/// At-most-once verification: the first verification of a cached token
/// succeeds exactly when the supplied key equals the stored one and the
/// entry is fresh; and once any verification has consumed the token, every
/// later verification of it fails, whatever key it supplies.
pub proof fn lemma_verify_at_most_once(
    m: Map<Seq<char>, TokenEntry>,
    token: Seq<char>,
    k1: Seq<char>,
    k2: Seq<char>,
    now1: u64,
    now2: u64,
)
    requires
        m.contains_key(token),
    ensures
        spec_verify(m, token, k1, now1) == (now1 < m[token].expiry && m[token].key@ == k1),
        !spec_verify(m.remove(token), token, k2, now2),
{
}

/// Puzzle consumption: a retrieve consumes the entry, so two successive
/// retrieves of one challenge return the entry and then nothing, whenever
/// the first preceded expiry.
pub proof fn lemma_retrieve_consumes(
    m: Map<Seq<char>, PowEntry>,
    challenge: Seq<char>,
    now1: u64,
    now2: u64,
)
    requires
        m.contains_key(challenge),
        now1 < m[challenge].expiry,
    ensures
        spec_retrieve_pow(m, challenge, now1) == Some(m[challenge].config),
        spec_retrieve_pow(m.remove(challenge), challenge, now2) == None::<CachedPoWConfig>,
{
}

/// TTL expiry: a puzzle stored at time `t` with TTL `d` is no longer
/// returned by a retrieve at or after `t + d`.
pub proof fn lemma_ttl_expiry(m: Map<Seq<char>, PowEntry>, msg: CachePoW, t: u64, now: u64)
    requires
        t + msg.duration <= u64::MAX,
        t + msg.duration <= now,
    ensures
        spec_retrieve_pow(spec_cache_pow(m, msg, t), msg.string@, now)
            == None::<CachedPoWConfig>,
{
}

/// The embedded cache: a key-to-entry mapping per namespace.
pub struct HashCache {
    pub difficulty_map: Vec<KvPair<PowEntry>>,
    pub result_map: Vec<KvPair<TokenEntry>>,
}

/// A request to the cache.
pub enum CacheMessage {
    CachePoW(CachePoW),
    RetrivePoW(RetrivePoW),
    DeletePoW(DeletePoW),
    CacheResult(CacheResult),
    VerifyCaptchaResult(VerifyCaptchaResult),
    DeleteCaptchaResult(DeleteCaptchaResult),
}

/// A reply from the cache. `Saved` carries the deadline (seconds) at which
/// the runtime should fire the matching expiry call.
#[derive(PartialEq, Eq, Debug)]
pub enum CacheReply {
    Saved(u64),
    Pow(Option<CachedPoWConfig>),
    Verified(bool),
    Deleted,
}

impl Default for HashCache {
    /// An empty cache.
    fn default() -> (c: Self)
        ensures
            c.wf(),
            c.pow_map() == Map::<Seq<char>, PowEntry>::empty(),
            c.token_map() == Map::<Seq<char>, TokenEntry>::empty(),
    {
        HashCache { difficulty_map: Vec::new(), result_map: Vec::new() }
    }
}

impl HashCache {
    pub open spec fn wf(&self) -> bool {
        kv_wf(self.difficulty_map@) && kv_wf(self.result_map@)
    }

    /// The puzzle namespace as a map from challenge strings to entries.
    pub open spec fn pow_map(&self) -> Map<Seq<char>, PowEntry> {
        kv_map(self.difficulty_map@)
    }

    /// The token namespace as a map from tokens to entries.
    pub open spec fn token_map(&self) -> Map<Seq<char>, TokenEntry> {
        kv_map(self.result_map@)
    }

    /// An empty cache.
    pub fn new() -> (c: HashCache)
        ensures
            c.wf(),
            c.pow_map() == Map::<Seq<char>, PowEntry>::empty(),
            c.token_map() == Map::<Seq<char>, TokenEntry>::empty(),
    {
        HashCache { difficulty_map: Vec::new(), result_map: Vec::new() }
    }

    /// Stores an issued puzzle under its challenge string (last writer
    /// wins) and schedules its deletion: the returned deadline is when the
    /// runtime should call [`Self::expire_pow`].
    pub fn cache_pow(&mut self, msg: CachePoW, now: u64) -> (expiry: u64)
        requires
            old(self).wf(),
            now + msg.duration <= u64::MAX,
        ensures
            final(self).wf(),
            final(self).pow_map() == spec_cache_pow(old(self).pow_map(), msg, now),
            final(self).token_map() == old(self).token_map(),
            expiry == now + msg.duration,
    {
        let expiry = now + msg.duration;
        let config = CachedPoWConfig {
            key: msg.key,
            difficulty_factor: msg.difficulty_factor,
            duration: msg.duration,
        };
        kv_insert(&mut self.difficulty_map, msg.string, PowEntry { config, expiry });
        expiry
    }

    /// Atomic read-and-remove of a puzzle. Returns the entry only when it
    /// is present and unexpired; either way the key is absent afterwards,
    /// so a second retrieve returns nothing until a new insert.
    pub fn retrieve_pow(&mut self, challenge: &String, now: u64) -> (r: Option<CachedPoWConfig>)
        requires
            old(self).wf(),
        ensures
            final(self).wf(),
            final(self).pow_map() == old(self).pow_map().remove(challenge@),
            final(self).token_map() == old(self).token_map(),
            r == spec_retrieve_pow(old(self).pow_map(), challenge@, now),
    {
        match kv_remove(&mut self.difficulty_map, challenge) {
            Some(e) => if now < e.expiry {
                Some(e.config)
            } else {
                None
            },
            None => None,
        }
    }

    /// Drops the puzzle stored under `challenge`; idempotent.
    pub fn delete_pow(&mut self, challenge: &String)
        requires
            old(self).wf(),
        ensures
            final(self).wf(),
            final(self).pow_map() == old(self).pow_map().remove(challenge@),
            final(self).token_map() == old(self).token_map(),
    {
        kv_remove(&mut self.difficulty_map, challenge);
    }

    /// Timer-driven expiry: drops the puzzle under `challenge` only when
    /// its deadline has passed, so that the timer of an overwritten entry
    /// fires as a no-op on the entry that replaced it.
    pub fn expire_pow(&mut self, challenge: &String, now: u64)
        requires
            old(self).wf(),
        ensures
            final(self).wf(),
            final(self).token_map() == old(self).token_map(),
            final(self).pow_map() == (if old(self).pow_map().contains_key(challenge@)
                && old(self).pow_map()[challenge@].expiry <= now {
                old(self).pow_map().remove(challenge@)
            } else {
                old(self).pow_map()
            }),
    {
        match kv_find(&self.difficulty_map, challenge) {
            Some(i) => {
                proof {
                    lemma_kv_map_index(self.difficulty_map@, i as int);
                }
                if self.difficulty_map[i].val.expiry <= now {
                    proof {
                        lemma_kv_map_remove(self.difficulty_map@, i as int);
                    }
                    self.difficulty_map.remove(i);
                }
            },
            None => {
                proof {
                    lemma_kv_map_absent(self.difficulty_map@, challenge@);
                }
            },
        }
    }

    /// Stores a redemption token and schedules its deletion: the returned
    /// deadline is when the runtime should call [`Self::expire_result`].
    pub fn cache_result(&mut self, msg: CacheResult, now: u64) -> (expiry: u64)
        requires
            old(self).wf(),
            now + msg.duration <= u64::MAX,
        ensures
            final(self).wf(),
            final(self).token_map() == spec_cache_result(old(self).token_map(), msg, now),
            final(self).pow_map() == old(self).pow_map(),
            expiry == now + msg.duration,
    {
        let expiry = now + msg.duration;
        kv_insert(&mut self.result_map, msg.token, TokenEntry { key: msg.key, expiry });
        expiry
    }

    /// Atomic read-and-remove of a token. True exactly when the token was
    /// present, unexpired, and stored with the supplied site key. The entry
    /// is consumed even on a mismatch, so a bad guess followed by the right
    /// guess on the same token still fails.
    pub fn verify_result(&mut self, msg: &VerifyCaptchaResult, now: u64) -> (r: bool)
        requires
            old(self).wf(),
        ensures
            final(self).wf(),
            final(self).token_map() == old(self).token_map().remove(msg.token@),
            final(self).pow_map() == old(self).pow_map(),
            r == spec_verify(old(self).token_map(), msg.token@, msg.key@, now),
    {
        match kv_remove(&mut self.result_map, &msg.token) {
            Some(e) => {
                let fresh = now < e.expiry;
                let key_matches = e.key == msg.key;
                fresh && key_matches
            },
            None => false,
        }
    }

    /// Drops the entry stored under `token`; idempotent.
    pub fn delete_result(&mut self, token: &String)
        requires
            old(self).wf(),
        ensures
            final(self).wf(),
            final(self).token_map() == old(self).token_map().remove(token@),
            final(self).pow_map() == old(self).pow_map(),
    {
        kv_remove(&mut self.result_map, token);
    }

    /// Timer-driven expiry of a token entry, a no-op on an entry that was
    /// overwritten with a later deadline.
    pub fn expire_result(&mut self, token: &String, now: u64)
        requires
            old(self).wf(),
        ensures
            final(self).wf(),
            final(self).pow_map() == old(self).pow_map(),
            final(self).token_map() == (if old(self).token_map().contains_key(token@)
                && old(self).token_map()[token@].expiry <= now {
                old(self).token_map().remove(token@)
            } else {
                old(self).token_map()
            }),
    {
        match kv_find(&self.result_map, token) {
            Some(i) => {
                proof {
                    lemma_kv_map_index(self.result_map@, i as int);
                }
                if self.result_map[i].val.expiry <= now {
                    proof {
                        lemma_kv_map_remove(self.result_map@, i as int);
                    }
                    self.result_map.remove(i);
                }
            },
            None => {
                proof {
                    lemma_kv_map_absent(self.result_map@, token@);
                }
            },
        }
    }

    /// One step of the cache's mailbox loop: dispatches a request at time
    /// `now` and returns the typed reply.
    pub fn handle(&mut self, msg: CacheMessage, now: u64) -> (reply: CacheReply)
        requires
            old(self).wf(),
            (msg matches CacheMessage::CachePoW(m) ==> now + m.duration <= u64::MAX),
            (msg matches CacheMessage::CacheResult(m) ==> now + m.duration <= u64::MAX),
        ensures
            final(self).wf(),
            match msg {
                CacheMessage::CachePoW(m) => final(self).pow_map() == spec_cache_pow(
                    old(self).pow_map(),
                    m,
                    now,
                ) && final(self).token_map() == old(self).token_map() && reply
                    == CacheReply::Saved((now + m.duration) as u64),
                CacheMessage::RetrivePoW(m) => final(self).pow_map() == old(
                    self,
                ).pow_map().remove(m.0@) && final(self).token_map() == old(self).token_map()
                    && reply == CacheReply::Pow(
                    spec_retrieve_pow(old(self).pow_map(), m.0@, now),
                ),
                CacheMessage::DeletePoW(m) => final(self).pow_map() == old(
                    self,
                ).pow_map().remove(m.0@) && final(self).token_map() == old(self).token_map()
                    && reply == CacheReply::Deleted,
                CacheMessage::CacheResult(m) => final(self).token_map() == spec_cache_result(
                    old(self).token_map(),
                    m,
                    now,
                ) && final(self).pow_map() == old(self).pow_map() && reply == CacheReply::Saved(
                    (now + m.duration) as u64,
                ),
                CacheMessage::VerifyCaptchaResult(m) => final(self).token_map() == old(
                    self,
                ).token_map().remove(m.token@) && final(self).pow_map() == old(self).pow_map()
                    && reply == CacheReply::Verified(
                    spec_verify(old(self).token_map(), m.token@, m.key@, now),
                ),
                CacheMessage::DeleteCaptchaResult(m) => final(self).token_map() == old(
                    self,
                ).token_map().remove(m.token@) && final(self).pow_map() == old(self).pow_map()
                    && reply == CacheReply::Deleted,
            },
    {
        match msg {
            CacheMessage::CachePoW(m) => CacheReply::Saved(self.cache_pow(m, now)),
            CacheMessage::RetrivePoW(m) => CacheReply::Pow(self.retrieve_pow(&m.0, now)),
            CacheMessage::DeletePoW(m) => {
                self.delete_pow(&m.0);
                CacheReply::Deleted
            },
            CacheMessage::CacheResult(m) => CacheReply::Saved(self.cache_result(m, now)),
            CacheMessage::VerifyCaptchaResult(m) => CacheReply::Verified(
                self.verify_result(&m, now),
            ),
            CacheMessage::DeleteCaptchaResult(m) => {
                self.delete_result(&m.token);
                CacheReply::Deleted
            },
        }
    }
}

} // verus!
