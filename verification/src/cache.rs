//! A cache whose entries expire a fixed time after they were stored.
//!
//! What a cache holds is a map from keys to entries, [`Cache::view`]; the
//! module [`crate::model`] says what each operation does to that map. The
//! operations come in pairs: `insert_at`, `get_at` and `remove_expired_at`
//! take the time as an argument and are specified exactly; `insert`, `get`
//! and `remove_expired` read the clock and do the same at whatever time it
//! shows.

use crate::clock::duration_nanos;
use crate::model::{lookup, store, sweep, CacheEntry};
use std::time::{Duration, Instant};
use vstd::prelude::*;
use vstd::std_specs::cmp::PartialEqSpec;

verus! {

/// Whether `==` on `K` decides equality of views. Two keys name one entry
/// exactly when their views are equal, so a cache can be keyed by `K` only
/// where its `==` decides that.
pub open spec fn eq_decides_view<K: PartialEq + View>() -> bool {
    &&& K::obeys_eq_spec()
    &&& forall|a: K, b: K| #[trigger] a.eq_spec(&b) <==> (a@ == b@)
}

/// One entry as it is stored: the expiry is not kept, but the time of the
/// insertion, to which the cache's time to live is added when it is asked
/// for, in arithmetic that cannot overflow.
struct Slot<K, V> {
    key: K,
    value: V,
    inserted_at: u128,
}

/// A map from keys to values in which every entry expires `ttl` after it was
/// stored. Time is counted in nanoseconds since the cache was made.
///
/// An expired entry is absent to readers but stays in storage until
/// [`Cache::remove_expired`] takes it out.
///
/// Storage is a list with one slot for each key, searched from the front.
/// What changes the cache takes `&mut self`: callers that share a cache put
/// it behind a lock of their own and hold the lock for one call at a time.
pub struct Cache<K: PartialEq + View, V> {
    ttl: u128,
    epoch: Instant,
    slots: Vec<Slot<K, V>>,
}

/// No two slots hold the same key.
spec fn distinct_keys<K: View, V>(slots: Seq<Slot<K, V>>) -> bool {
    forall|i: int, j: int| 0 <= i < j < slots.len() ==> slots[i].key@ != slots[j].key@
}

/// Whether some slot holds `key`.
spec fn holds_key<K: View, V>(slots: Seq<Slot<K, V>>, key: K::V) -> bool {
    exists|i: int| 0 <= i < slots.len() && #[trigger] slots[i].key@ == key
}

/// The index of a slot that holds `key`, where one does.
spec fn slot_of<K: View, V>(slots: Seq<Slot<K, V>>, key: K::V) -> int {
    choose|i: int| 0 <= i < slots.len() && #[trigger] slots[i].key@ == key
}

/// The entry that a slot stands for, in a cache with the given time to live.
spec fn entry_of<K, V>(slot: Slot<K, V>, ttl: nat) -> CacheEntry<V> {
    CacheEntry { value: slot.value, expires_at: (slot.inserted_at + ttl) as nat }
}

/// The map that the slots stand for.
spec fn contents_of<K: View, V>(slots: Seq<Slot<K, V>>, ttl: nat) -> Map<K::V, CacheEntry<V>> {
    Map::new(
        |key: K::V| holds_key(slots, key),
        |key: K::V| entry_of(slots[slot_of(slots, key)], ttl),
    )
}

/// With distinct keys, every slot is found under its key, and every key of
/// the contents is the key of a slot.
proof fn lemma_contents_of<K: View, V>(slots: Seq<Slot<K, V>>, ttl: nat)
    requires
        distinct_keys(slots),
    ensures
        forall|i: int|
            0 <= i < slots.len() ==> {
                &&& contents_of(slots, ttl).contains_key(#[trigger] slots[i].key@)
                &&& contents_of(slots, ttl)[slots[i].key@] == entry_of(slots[i], ttl)
            },
        forall|key: K::V| #[trigger]
            contents_of(slots, ttl).contains_key(key) ==> {
                &&& 0 <= slot_of(slots, key) < slots.len()
                &&& slots[slot_of(slots, key)].key@ == key
            },
{
    assert forall|i: int| 0 <= i < slots.len() implies {
        &&& contents_of(slots, ttl).contains_key(#[trigger] slots[i].key@)
        &&& contents_of(slots, ttl)[slots[i].key@] == entry_of(slots[i], ttl)
    } by {
        // No other slot has this key, so the one that is chosen is this one.
        assert(slot_of(slots, slots[i].key@) == i);
    }
}

/// A slot with a new key, put at the end, adds its entry to the contents.
proof fn lemma_push<K: View, V>(slots: Seq<Slot<K, V>>, slot: Slot<K, V>, ttl: nat)
    requires
        distinct_keys(slots),
        !holds_key(slots, slot.key@),
    ensures
        distinct_keys(slots.push(slot)),
        contents_of(slots.push(slot), ttl) == contents_of(slots, ttl).insert(
            slot.key@,
            entry_of(slot, ttl),
        ),
{
    let after = slots.push(slot);
    assert forall|i: int, j: int| 0 <= i < j < after.len() implies after[i].key@
        != after[j].key@ by {
        if j == slots.len() && slots[i].key@ == slot.key@ {
            assert(holds_key(slots, slot.key@));
        }
    }
    lemma_contents_of(slots, ttl);
    lemma_contents_of(after, ttl);
    let wanted = contents_of(slots, ttl).insert(slot.key@, entry_of(slot, ttl));
    assert forall|key: K::V| contents_of(after, ttl).contains_key(key) implies {
        &&& #[trigger] wanted.contains_key(key)
        &&& wanted[key] == contents_of(after, ttl)[key]
    } by {
        let i = slot_of(after, key);
        if i < slots.len() {
            assert(after[i] == slots[i]);
        }
    }
    assert forall|key: K::V| #[trigger] wanted.contains_key(key) implies contents_of(
        after,
        ttl,
    ).contains_key(key) by {
        let i = if key == slot.key@ {
            slots.len() as int
        } else {
            slot_of(slots, key)
        };
        assert(after[i].key@ == key);
    }
    assert(contents_of(after, ttl) =~= wanted);
}

/// A slot that takes the place of the one with its key replaces that entry.
proof fn lemma_update<K: View, V>(slots: Seq<Slot<K, V>>, at: int, slot: Slot<K, V>, ttl: nat)
    requires
        distinct_keys(slots),
        0 <= at < slots.len(),
        slots[at].key@ == slot.key@,
    ensures
        distinct_keys(slots.update(at, slot)),
        contents_of(slots.update(at, slot), ttl) == contents_of(slots, ttl).insert(
            slot.key@,
            entry_of(slot, ttl),
        ),
{
    let after = slots.update(at, slot);
    assert forall|i: int| 0 <= i < after.len() implies #[trigger] after[i].key@
        == slots[i].key@ by {}
    lemma_contents_of(slots, ttl);
    lemma_contents_of(after, ttl);
    let wanted = contents_of(slots, ttl).insert(slot.key@, entry_of(slot, ttl));
    assert forall|key: K::V| contents_of(after, ttl).contains_key(key) implies {
        &&& #[trigger] wanted.contains_key(key)
        &&& wanted[key] == contents_of(after, ttl)[key]
    } by {
        let i = slot_of(after, key);
        if i != at {
            assert(after[i] == slots[i]);
        }
    }
    assert forall|key: K::V| #[trigger] wanted.contains_key(key) implies contents_of(
        after,
        ttl,
    ).contains_key(key) by {
        let i = if key == slot.key@ {
            at
        } else {
            slot_of(slots, key)
        };
        assert(after[i].key@ == key);
    }
    assert(contents_of(after, ttl) =~= wanted);
}

/// Moving the last slot into the place of another takes that other slot's
/// entry out of the contents and leaves the rest as it was.
proof fn lemma_swap_remove<K: View, V>(slots: Seq<Slot<K, V>>, at: int, ttl: nat)
    requires
        distinct_keys(slots),
        0 <= at < slots.len(),
    ensures
        distinct_keys(slots.update(at, slots.last()).drop_last()),
        contents_of(slots.update(at, slots.last()).drop_last(), ttl) == contents_of(
            slots,
            ttl,
        ).remove(slots[at].key@),
{
    let last = slots.len() - 1;
    let after = slots.update(at, slots.last()).drop_last();
    // Where each slot of `after` stood before.
    let origin = |i: int| if i == at { last } else { i };
    assert forall|i: int| 0 <= i < after.len() implies #[trigger] after[i] == slots[origin(i)] by {}
    lemma_contents_of(slots, ttl);
    lemma_contents_of(after, ttl);
    let wanted = contents_of(slots, ttl).remove(slots[at].key@);
    assert forall|key: K::V| contents_of(after, ttl).contains_key(key) implies {
        &&& #[trigger] wanted.contains_key(key)
        &&& wanted[key] == contents_of(after, ttl)[key]
    } by {
        let i = slot_of(after, key);
        assert(after[i] == slots[origin(i)]);
    }
    assert forall|key: K::V| #[trigger] wanted.contains_key(key) implies contents_of(
        after,
        ttl,
    ).contains_key(key) by {
        let i = slot_of(slots, key);
        let moved = if i == last {
            at
        } else {
            i
        };
        assert(after[moved].key@ == key);
    }
    assert(contents_of(after, ttl) =~= wanted);
}

/// With distinct keys, the contents hold as many entries as there are slots.
proof fn lemma_count<K: View, V>(slots: Seq<Slot<K, V>>, ttl: nat)
    requires
        distinct_keys(slots),
    ensures
        contents_of(slots, ttl).dom().finite(),
        contents_of(slots, ttl).dom().len() == slots.len(),
    decreases slots.len(),
{
    if slots.len() == 0 {
        assert(contents_of(slots, ttl).dom() =~= Set::<K::V>::empty());
    } else {
        let front = slots.drop_last();
        let last = slots.last();
        assert(!holds_key(front, last.key@)) by {
            if holds_key(front, last.key@) {
                let i = slot_of(front, last.key@);
                assert(slots[i].key@ == slots[slots.len() - 1].key@);
            }
        }
        lemma_count(front, ttl);
        lemma_push(front, last, ttl);
        assert(front.push(last) =~= slots);
    }
}

impl<K: PartialEq + View, V> View for Cache<K, V> {
    type V = Map<K::V, CacheEntry<V>>;

    closed spec fn view(&self) -> Map<K::V, CacheEntry<V>> {
        contents_of(self.slots@, self.ttl as nat)
    }
}

impl<K: PartialEq + View, V> Cache<K, V> {
    /// Holds of every cache at every step: keys can be told apart, and no key
    /// has two slots.
    #[verifier::type_invariant]
    spec fn well_formed(&self) -> bool {
        &&& eq_decides_view::<K>()
        &&& distinct_keys(self.slots@)
    }

    /// The time to live of every entry, in nanoseconds. It never changes.
    pub closed spec fn ttl(&self) -> nat {
        self.ttl as nat
    }

    /// An empty cache whose entries will live for `ttl`.
    pub fn new(ttl: Duration) -> (cache: Self)
        requires
            eq_decides_view::<K>(),
        ensures
            cache@ == Map::<K::V, CacheEntry<V>>::empty(),
            cache.ttl() == duration_nanos(ttl),
    {
        Self::with_ttl_nanos(ttl.as_nanos())
    }

    /// An empty cache whose entries will live for `ttl` nanoseconds.
    pub fn with_ttl_nanos(ttl: u128) -> (cache: Self)
        requires
            eq_decides_view::<K>(),
        ensures
            cache@ == Map::<K::V, CacheEntry<V>>::empty(),
            cache.ttl() == ttl,
    {
        Cache { ttl, epoch: Instant::now(), slots: Vec::new() }
    }

    /// The index of the slot that holds `key`, if one does.
    fn position(&self, key: &K) -> (found: Option<usize>)
        ensures
            match found {
                Some(i) => i < self.slots.len() && self.slots[i as int].key@ == key@,
                None => !holds_key(self.slots@, key@),
            },
    {
        proof {
            use_type_invariant(self);
        }
        let mut i: usize = 0;
        while i < self.slots.len()
            invariant
                i <= self.slots.len(),
                eq_decides_view::<K>(),
                forall|j: int| 0 <= j < i ==> self.slots[j].key@ != key@,
            decreases self.slots.len() - i,
        {
            if self.slots[i].key == *key {
                return Some(i);
            }
            i += 1;
        }
        None
    }

    /// The number of entries in storage, expired ones included. No key has
    /// more than one.
    pub fn len(&self) -> (len: usize)
        ensures
            self@.dom().finite(),
            len == self@.dom().len(),
    {
        proof {
            use_type_invariant(self);
            lemma_count(self.slots@, self.ttl as nat);
        }
        self.slots.len()
    }

    /// Whether storage holds an entry for `key`, expired or not.
    pub fn is_stored(&self, key: &K) -> (stored: bool)
        ensures
            stored == self@.contains_key(key@),
    {
        proof {
            use_type_invariant(self);
            lemma_contents_of(self.slots@, self.ttl as nat);
        }
        self.position(key).is_some()
    }

    /// The value stored under `key`, if its entry has not expired at `now`.
    /// Storage is left as it is: an expired entry is not taken out.
    pub fn get_at(&self, key: &K, now: u128) -> (found: Option<&V>)
        ensures
            lookup(self@, key@, now as nat) == match found {
                Some(value) => Some(*value),
                None => None,
            },
    {
        proof {
            use_type_invariant(self);
            lemma_contents_of(self.slots@, self.ttl as nat);
        }
        match self.position(key) {
            Some(i) => {
                let slot = &self.slots[i];
                if now < slot.inserted_at || now - slot.inserted_at < self.ttl {
                    Some(&slot.value)
                } else {
                    None
                }
            },
            None => None,
        }
    }

    /// Stores `value` under `key` at time `now`. An entry that `key` had is
    /// replaced as a whole: the value is new and the time to live starts
    /// again.
    pub fn insert_at(&mut self, key: K, value: V, now: u128)
        ensures
            final(self)@ == store(old(self)@, key@, value, now as nat, old(self).ttl()),
            final(self).ttl() == old(self).ttl(),
    {
        proof {
            use_type_invariant(&*self);
        }
        let found = self.position(&key);
        let slot = Slot { key, value, inserted_at: now };
        // The slots leave `self` while they change, so that what `self` holds
        // is well formed at every step.
        let mut slots = Vec::new();
        std::mem::swap(&mut slots, &mut self.slots);
        match found {
            Some(i) => {
                proof {
                    lemma_update(slots@, i as int, slot, self.ttl as nat);
                }
                slots.set(i, slot);
            },
            None => {
                proof {
                    lemma_push(slots@, slot, self.ttl as nat);
                }
                slots.push(slot);
            },
        }
        self.slots = slots;
    }

    /// Takes out of storage every entry that has expired at `now` and leaves
    /// every other entry as it is. The cost is proportional to the number of
    /// entries.
    pub fn remove_expired_at(&mut self, now: u128)
        ensures
            final(self)@ == sweep(old(self)@, now as nat),
            final(self).ttl() == old(self).ttl(),
    {
        proof {
            use_type_invariant(&*self);
        }
        let ttl = self.ttl;
        let mut slots = Vec::new();
        std::mem::swap(&mut slots, &mut self.slots);
        let ghost before = contents_of(slots@, ttl as nat);
        let mut i: usize = 0;
        while i < slots.len()
            invariant
                i <= slots.len(),
                distinct_keys(slots@),
                forall|j: int| 0 <= j < i ==> now < slots[j].inserted_at + ttl,
                sweep(contents_of(slots@, ttl as nat), now as nat) == sweep(before, now as nat),
            decreases slots.len() - i,
        {
            let inserted_at = slots[i].inserted_at;
            if now < inserted_at || now - inserted_at < ttl {
                i += 1;
            } else {
                proof {
                    lemma_contents_of(slots@, ttl as nat);
                    lemma_swap_remove(slots@, i as int, ttl as nat);
                    let held = contents_of(slots@, ttl as nat);
                    assert(sweep(held.remove(slots[i as int].key@), now as nat) =~= sweep(
                        held,
                        now as nat,
                    ));
                }
                slots.swap_remove(i);
            }
        }
        proof {
            // Every slot that is left is live, so a sweep would change nothing.
            lemma_contents_of(slots@, ttl as nat);
        }
        self.slots = slots;
    }

    /// The time on the cache's clock: the nanoseconds that have passed since
    /// the cache was made. Nothing is known of it but that it is read anew
    /// at every call.
    pub(crate) fn now(&self) -> u128 {
        Instant::now().saturating_duration_since(self.epoch).as_nanos()
    }

    /// Stores `value` under `key` at the time the clock shows. Whatever that
    /// time is, the entry for `key` is new as a whole and every other entry
    /// is as it was: see [`Cache::insert_at`].
    pub fn insert(&mut self, key: K, value: V)
        ensures
            exists|now: u128|
                final(self)@ == #[trigger] store(
                    old(self)@,
                    key@,
                    value,
                    now as nat,
                    old(self).ttl(),
                ),
            final(self).ttl() == old(self).ttl(),
    {
        let now = self.now();
        self.insert_at(key, value, now);
        assert(self@ == store(old(self)@, key@, value, now as nat, old(self).ttl()));
    }

    /// The value stored under `key`, if its entry has not expired at the time
    /// the clock shows: see [`Cache::get_at`]. Whatever that time is, a value
    /// that is returned is the one stored under `key`.
    pub fn get(&self, key: &K) -> (found: Option<&V>)
        ensures
            exists|now: u128| #[trigger]
                lookup(self@, key@, now as nat) == match found {
                    Some(value) => Some(*value),
                    None => None,
                },
            found matches Some(value) ==> self@.contains_key(key@) && self@[key@].value == *value,
    {
        let now = self.now();
        let found = self.get_at(key, now);
        assert(lookup(self@, key@, now as nat) == match found {
            Some(value) => Some(*value),
            None => None,
        });
        found
    }

    /// Takes out of storage every entry that has expired at the time the
    /// clock shows: see [`Cache::remove_expired_at`].
    pub fn remove_expired(&mut self)
        ensures
            exists|now: u128| final(self)@ == #[trigger] sweep(old(self)@, now as nat),
            final(self).ttl() == old(self).ttl(),
    {
        let now = self.now();
        self.remove_expired_at(now);
        assert(self@ == sweep(old(self)@, now as nat));
    }
}

} // verus!
