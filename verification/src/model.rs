//! What a cache holds, as a mathematical map, and what its operations do to
//! that map. The contracts of [`crate::cache::Cache`] are stated over these
//! functions.
//!
//! Time is a natural number, in nanoseconds on the cache's clock.

use vstd::prelude::*;

verus! {

/// What the cache holds under one key: the value, and the time from which on
/// the entry counts as absent.
pub ghost struct CacheEntry<V> {
    pub value: V,
    pub expires_at: nat,
}

/// What a reader sees under `key` at time `now`: the value of the entry, if
/// there is one and it has not expired.
pub open spec fn lookup<K, V>(contents: Map<K, CacheEntry<V>>, key: K, now: nat) -> Option<V> {
    if contents.contains_key(key) && now < contents[key].expires_at {
        Some(contents[key].value)
    } else {
        None
    }
}

/// The contents after `value` was stored under `key` at time `now`: the entry
/// for `key` is new as a whole, every other entry is as it was.
pub open spec fn store<K, V>(
    contents: Map<K, CacheEntry<V>>,
    key: K,
    value: V,
    now: nat,
    ttl: nat,
) -> Map<K, CacheEntry<V>> {
    contents.insert(key, CacheEntry { value, expires_at: now + ttl })
}

/// The contents after a sweep at time `now`: the entries that have not
/// expired, unchanged.
pub open spec fn sweep<K, V>(contents: Map<K, CacheEntry<V>>, now: nat) -> Map<K, CacheEntry<V>> {
    Map::new(
        |key: K| contents.contains_key(key) && now < contents[key].expires_at,
        |key: K| contents[key],
    )
}

/// A value that was just stored is read back unchanged, provided that the
/// time to live is not zero.
pub proof fn lemma_stored_value_is_read_back<K, V>(
    contents: Map<K, CacheEntry<V>>,
    key: K,
    value: V,
    now: nat,
    ttl: nat,
)
    requires
        ttl > 0,
    ensures
        lookup(store(contents, key, value, now, ttl), key, now) == Some(value),
{
}

/// An entry is read back unchanged at every time before its time to live has
/// passed, and is absent to readers from then on, though it is still in
/// storage.
pub proof fn lemma_entry_expires_after_ttl<K, V>(
    contents: Map<K, CacheEntry<V>>,
    key: K,
    value: V,
    stored_at: nat,
    ttl: nat,
    now: nat,
)
    ensures
        now < stored_at + ttl ==> lookup(store(contents, key, value, stored_at, ttl), key, now)
            == Some(value),
        now >= stored_at + ttl ==> lookup(store(contents, key, value, stored_at, ttl), key, now)
            is None,
        store(contents, key, value, stored_at, ttl).contains_key(key),
{
}

/// What is absent to readers stays absent as time goes on, until something
/// is stored under the key again.
pub proof fn lemma_absent_stays_absent<K, V>(
    contents: Map<K, CacheEntry<V>>,
    key: K,
    now: nat,
    later: nat,
)
    requires
        lookup(contents, key, now) is None,
        now <= later,
    ensures
        lookup(contents, key, later) is None,
{
}

/// Storing under one key changes nothing that is read under another.
pub proof fn lemma_other_keys_are_untouched<K, V>(
    contents: Map<K, CacheEntry<V>>,
    key: K,
    value: V,
    stored_at: nat,
    ttl: nat,
    other: K,
    now: nat,
)
    requires
        other != key,
    ensures
        lookup(store(contents, key, value, stored_at, ttl), other, now) == lookup(
            contents,
            other,
            now,
        ),
{
}

/// One call of a caller that stores: what it stores, under which key, and
/// when.
pub ghost struct Insertion<K, V> {
    pub key: K,
    pub value: V,
    pub at: nat,
}

/// The contents after the insertions of `calls`, one after the other.
pub open spec fn store_all<K, V>(
    contents: Map<K, CacheEntry<V>>,
    calls: Seq<Insertion<K, V>>,
    ttl: nat,
) -> Map<K, CacheEntry<V>>
    decreases calls.len(),
{
    if calls.len() == 0 {
        contents
    } else {
        let last = calls.last();
        store(store_all(contents, calls.drop_last(), ttl), last.key, last.value, last.at, ttl)
    }
}

/// Whether `calls[i]` is the last of `calls` that stores under `key`.
pub open spec fn is_last_under<K, V>(calls: Seq<Insertion<K, V>>, i: int, key: K) -> bool {
    &&& 0 <= i < calls.len()
    &&& calls[i].key == key
    &&& forall|j: int| i < j < calls.len() ==> (#[trigger] calls[j]).key != key
}

/// In whatever order callers that store are admitted, one at a time, no entry
/// is lost and none is torn: a key that none of them stores under keeps what
/// it had, and any other key holds, value and expiry together, what the last
/// of them stored under it.
pub proof fn lemma_last_insert_wins<K, V>(
    contents: Map<K, CacheEntry<V>>,
    calls: Seq<Insertion<K, V>>,
    ttl: nat,
    key: K,
)
    ensures
        (forall|i: int| 0 <= i < calls.len() ==> (#[trigger] calls[i]).key != key) ==> {
            &&& store_all(contents, calls, ttl).contains_key(key) == contents.contains_key(key)
            &&& store_all(contents, calls, ttl)[key] == contents[key]
        },
        forall|i: int| #[trigger]
            is_last_under(calls, i, key) ==> {
                &&& store_all(contents, calls, ttl).contains_key(key)
                &&& store_all(contents, calls, ttl)[key] == CacheEntry {
                    value: calls[i].value,
                    expires_at: calls[i].at + ttl,
                }
            },
    decreases calls.len(),
{
    if calls.len() > 0 {
        let earlier = calls.drop_last();
        lemma_last_insert_wins(contents, earlier, ttl, key);
        assert forall|i: int| #[trigger] is_last_under(calls, i, key) implies {
            &&& store_all(contents, calls, ttl).contains_key(key)
            &&& store_all(contents, calls, ttl)[key] == CacheEntry {
                value: calls[i].value,
                expires_at: calls[i].at + ttl,
            }
        } by {
            if i < calls.len() - 1 {
                assert(calls.last().key != key);
                assert forall|j: int| i < j < earlier.len() implies (#[trigger] earlier[j]).key
                    != key by {
                    assert(earlier[j] == calls[j]);
                }
                assert(is_last_under(earlier, i, key));
            }
        }
        if forall|i: int| 0 <= i < calls.len() ==> (#[trigger] calls[i]).key != key {
            assert(calls.last().key != key);
            assert forall|i: int| 0 <= i < earlier.len() implies (#[trigger] earlier[i]).key
                != key by {
                assert(earlier[i] == calls[i]);
            }
        }
    }
}

/// A sweep takes out exactly the entries that have expired, leaves every
/// other entry as it is, and changes nothing that a reader sees from then on.
pub proof fn lemma_sweep_removes_exactly_the_expired<K, V>(
    contents: Map<K, CacheEntry<V>>,
    now: nat,
)
    ensures
        forall|key: K| #[trigger]
            sweep(contents, now).contains_key(key) <==> contents.contains_key(key)
                && contents[key].expires_at > now,
        forall|key: K| #[trigger]
            sweep(contents, now).contains_key(key) ==> sweep(contents, now)[key] == contents[key],
        forall|key: K, later: nat|
            later >= now ==> #[trigger] lookup(sweep(contents, now), key, later) == lookup(
                contents,
                key,
                later,
            ),
{
}

} // verus!
