//! Time-bounded cache of validated credentials, keyed by user name.
//!
//! Entries live in a sharded concurrent map; an entry is visible to reads only
//! while it is younger than [`CRED_TTL_SECS`], and an expired entry is removed
//! by the read that finds it.

use vstd::prelude::*;
use dashmap::DashMap;

verus! {

/// Declares `dashmap::DashMap`, a map split into individually locked shards,
/// so that it can be held in fields; its contents are known to proofs only
/// through the wrappers below.
#[verifier::external_type_specification]
#[verifier::external_body]
#[verifier::reject_recursive_types(K)]
#[verifier::reject_recursive_types(V)]
#[verifier::reject_recursive_types(S)]
pub struct ExDashMap<K, V, S>(DashMap<K, V, S>);

/// The concurrent map behind the cache.
pub type CredMap = DashMap<String, (String, u64)>;

/// Model of the cache: user name to (password, validation time in seconds).
pub type CredView = Map<Seq<char>, (Seq<char>, u64)>;

/// What the credential map holds: user name to (password, validation time).
pub uninterp spec fn cred_entries(m: CredMap) -> CredView;

/// Relies on `DashMap::new`: a new map holds no entry.
#[verifier::external_body]
fn cred_map_new() -> (r: CredMap)
    ensures
        cred_entries(r) == CredView::empty(),
{
    DashMap::new()
}

/// Relies on `DashMap::insert`: the key is mapped to the value, replacing any
/// earlier value; other keys are untouched.
#[verifier::external_body]
fn cred_map_insert(m: &mut CredMap, key: String, value: (String, u64))
    ensures
        cred_entries(*final(m)) == cred_entries(*old(m)).insert(key@, (value.0@, value.1)),
{
    m.insert(key, value);
}

/// Relies on `DashMap::get`: the value stored under the key, if any, copied out
/// before the shard's read guard is released.
#[verifier::external_body]
fn cred_map_get(m: &CredMap, key: &str) -> (r: Option<(String, u64)>)
    ensures
        match r {
            Some(v) => cred_entries(*m).contains_key(key@) && cred_entries(*m)[key@] == (v.0@, v.1),
            None => !cred_entries(*m).contains_key(key@),
        },
{
    m.get(key).map(|e| e.value().clone())
}

/// Relies on `DashMap::remove`: the key no longer has an entry; other keys are
/// untouched.
#[verifier::external_body]
fn cred_map_remove(m: &mut CredMap, key: &str)
    ensures
        cred_entries(*final(m)) == cred_entries(*old(m)).remove(key@),
{
    m.remove(key);
}

/// How long a validated credential is trusted: one day, in seconds.
pub const CRED_TTL_SECS: u64 = 86400;

/// An entry validated at `validated_at` is still trusted at time `now`
/// (both in seconds on one monotonic clock).
pub open spec fn is_fresh(validated_at: u64, now: u64) -> bool {
    (now as int) < validated_at as int + CRED_TTL_SECS as int
}

/// The credential cache. Its view maps each user name to the last validated
/// password and the time of that validation.
pub struct CredCache {
    entries: CredMap,
}

impl View for CredCache {
    type V = CredView;

    closed spec fn view(&self) -> Self::V {
        cred_entries(self.entries)
    }
}

/// What a lookup of `username` at time `now` returns, given the cache `c`.
pub open spec fn cached_password(c: CredView, username: Seq<char>, now: u64) -> Option<Seq<char>> {
    if c.contains_key(username) && is_fresh(c[username].1, now) {
        Some(c[username].0)
    } else {
        None
    }
}

/// The cache after a lookup of `username` at time `now`: an expired entry is gone.
pub open spec fn after_lookup(c: CredView, username: Seq<char>, now: u64) -> CredView {
    if c.contains_key(username) && !is_fresh(c[username].1, now) {
        c.remove(username)
    } else {
        c
    }
}

impl CredCache {
    /// An empty cache.
    pub fn new() -> (r: CredCache)
        ensures
            r@ == CredView::empty(),
    {
        CredCache { entries: cred_map_new() }
    }
}

/// Records `password` as validated for `username` at time `now`, replacing any
/// earlier entry for that user.
pub fn cache_cred(cache: &mut CredCache, username: &str, password: String, now: u64)
    ensures
        final(cache)@ == old(cache)@.insert(username@, (password@, now)),
{
    let key = String::from_str(username);
    cred_map_insert(&mut cache.entries, key, (password, now));
}

/// The password cached for `username`, if its entry is younger than the TTL at
/// time `now`. An expired entry is removed and `None` is returned.
pub fn get_cached_cred(cache: &mut CredCache, username: &str, now: u64) -> (r: Option<String>)
    ensures
        r matches Some(p) ==> cached_password(old(cache)@, username@, now) == Some(p@),
        r is None ==> cached_password(old(cache)@, username@, now) is None,
        final(cache)@ == after_lookup(old(cache)@, username@, now),
{
    match cred_map_get(&cache.entries, username) {
        Some((password, validated_at)) => {
            if now < validated_at || now - validated_at < CRED_TTL_SECS {
                Some(password)
            } else {
                cred_map_remove(&mut cache.entries, username);
                None
            }
        },
        None => None,
    }
}

/// A lookup made within the TTL of the latest `cache_cred` for a user returns
/// the password that call stored, whatever the cache held before.
pub proof fn lemma_lookup_returns_latest_put(c: CredView, username: Seq<char>, password: Seq<char>, put_at: u64, now: u64)
    requires
        put_at <= now,
        is_fresh(put_at, now),
    ensures
        cached_password(c.insert(username, (password, put_at)), username, now) == Some(password),
{
}

/// Caching or looking up another user leaves what a lookup of `username`
/// returns unchanged, so the latest `cache_cred` for `username` stays the one
/// that counts.
pub proof fn lemma_other_users_do_not_interfere(c: CredView, username: Seq<char>, other: Seq<char>, password: Seq<char>, t: u64, now: u64)
    requires
        other != username,
    ensures
        cached_password(c.insert(other, (password, t)), username, now) == cached_password(c, username, now),
        cached_password(after_lookup(c, other, t), username, now) == cached_password(c, username, now),
{
}

/// A lookup of an entry older than the TTL misses and removes it, so every
/// later lookup of that user misses too until it is cached again.
pub proof fn lemma_expired_entry_evicted(c: CredView, username: Seq<char>, now: u64, later: u64)
    requires
        c.contains_key(username),
        !is_fresh(c[username].1, now),
    ensures
        cached_password(c, username, now) is None,
        !after_lookup(c, username, now).contains_key(username),
        cached_password(after_lookup(c, username, now), username, later) is None,
{
}

} // verus!
