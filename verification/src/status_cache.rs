//! The server's memory of the last status of entities: a bounded cache from
//! which the entity that was written longest ago is dropped first.

use lru::LruCache;
use std::num::NonZeroUsize;
use vstd::prelude::*;
use vstd::string::*;

use crate::time::Timestamp;

verus! {

/// `lru::LruCache`: a bounded map with an order of use.
#[verifier::external_type_specification]
#[verifier::external_body]
#[verifier::reject_recursive_types(K)]
#[verifier::reject_recursive_types(V)]
#[verifier::reject_recursive_types(S)]
pub struct ExLruCache<K, V, S>(LruCache<K, V, S>);

/// `lru::DefaultHasher`: what the keys of a cache are hashed with.
#[verifier::external_type_specification]
#[verifier::external_body]
pub struct ExDefaultHasher(lru::DefaultHasher);

/// What a cache holds: keys and values, the one that was written last first.
pub uninterp spec fn cached(cache: LruCache<String, (String, i64, u32)>) -> Seq<
    (Seq<char>, (Seq<char>, i64, u32)),
>;

/// How many entries a cache holds at most.
pub uninterp spec fn cache_limit(cache: LruCache<String, (String, i64, u32)>) -> nat;

/// The entries of a cache after a key was written: the key comes first with its
/// new value, and what is above the limit is dropped from the end.
pub open spec fn remembered(
    entries: Seq<(Seq<char>, (Seq<char>, i64, u32))>,
    key: Seq<char>,
    value: (Seq<char>, i64, u32),
    limit: nat,
) -> Seq<(Seq<char>, (Seq<char>, i64, u32))> {
    let others = entries.filter(|e: (Seq<char>, (Seq<char>, i64, u32))| e.0 != key);
    let all = seq![(key, value)] + others;
    if all.len() > limit {
        all.take(limit as int)
    } else {
        all
    }
}

/// `lru::LruCache::new`: an empty cache with this limit. Its table is allocated
/// at once, and panics where its size is more than memory can address: limits
/// that come near that are left out.
#[verifier::external_body]
fn new_cache(limit: usize) -> (r: LruCache<String, (String, i64, u32)>)
    requires
        0 < limit <= usize::MAX / 128,
    ensures
        cached(r).len() == 0,
        cache_limit(r) == limit,
{
    LruCache::new(NonZeroUsize::new(limit).expect("limit is positive"))
}

/// `lru::LruCache::put`: the key is bound to the value and is the one that was
/// used last; where the cache was full and the key is new, the entry that was
/// used longest ago is dropped.
#[verifier::external_body]
fn put_in_cache(
    cache: &mut LruCache<String, (String, i64, u32)>,
    key: String,
    value: (String, i64, u32),
)
    ensures
        cached(*final(cache)) == remembered(
            cached(*old(cache)),
            key@,
            (value.0@, value.1, value.2),
            cache_limit(*old(cache)),
        ),
        cache_limit(*final(cache)) == cache_limit(*old(cache)),
{
    cache.put(key, value);
}

/// What listed entries hold.
pub open spec fn entry_views(v: Seq<(String, (String, i64, u32))>) -> Seq<
    (Seq<char>, (Seq<char>, i64, u32)),
> {
    Seq::new(v.len(), |i: int| (v[i].0@, (v[i].1.0@, v[i].1.1, v[i].1.2)))
}

/// `lru::LruCache::iter`: the entries, the one that was used last first.
#[verifier::external_body]
fn list_cache(cache: &LruCache<String, (String, i64, u32)>) -> (r: Vec<
    (String, (String, i64, u32)),
>)
    ensures
        entry_views(r@) == cached(*cache),
{
    cache.iter().map(|(key, value)| (key.clone(), value.clone())).collect()
}

/// The last status of entities, each with the time at which it was noted.
pub struct EntityStatusCache {
    cache: LruCache<String, (String, i64, u32)>,
}

impl EntityStatusCache {
    /// The entities and what is remembered of each, the one that was noted last
    /// first.
    pub closed spec fn entries(&self) -> Seq<(Seq<char>, (Seq<char>, i64, u32))> {
        cached(self.cache)
    }

    /// How many entities are remembered at most.
    pub closed spec fn budget(&self) -> nat {
        cache_limit(self.cache)
    }

    pub fn new(budget: usize) -> (r: Self)
        requires
            0 < budget <= usize::MAX / 128,
        ensures
            r.entries().len() == 0,
            r.budget() == budget,
    {
        EntityStatusCache { cache: new_cache(budget) }
    }

    /// Notes the status of an entity.
    pub fn cache_entity_status(&mut self, cache_key: String, status: String, now: Timestamp)
        ensures
            final(self).budget() == old(self).budget(),
            final(self).entries() == remembered(
                old(self).entries(),
                cache_key@,
                (status@, now.secs, now.nanos),
                old(self).budget(),
            ),
    {
        put_in_cache(&mut self.cache, cache_key, (status, now.secs, now.nanos));
    }

    /// Lists what is remembered, the entity that was noted last first.
    pub fn recent(&self) -> (r: Vec<(String, (String, i64, u32))>)
        ensures
            entry_views(r@) == self.entries(),
    {
        list_cache(&self.cache)
    }
}

/// The entity that was noted last is remembered with its new status, and there
/// are never more than the budget.
pub proof fn the_last_status_is_remembered(
    entries: Seq<(Seq<char>, (Seq<char>, i64, u32))>,
    key: Seq<char>,
    value: (Seq<char>, i64, u32),
    limit: nat,
)
    requires
        limit > 0,
    ensures
        remembered(entries, key, value, limit).len() <= limit,
        remembered(entries, key, value, limit)[0] == (key, value),
{
}

/// Noting a status keeps what was noted of another entity, in the order in which
/// it was noted, and forgets at most the one that was noted longest ago. An
/// entity that is noted again is not remembered twice.
pub proof fn noting_a_status_keeps_the_others(
    entries: Seq<(Seq<char>, (Seq<char>, i64, u32))>,
    key: Seq<char>,
    value: (Seq<char>, i64, u32),
    limit: nat,
)
    requires
        limit > 0,
        entries.len() <= limit,
    ensures
        forall|i: int|
            1 <= i < remembered(entries, key, value, limit).len() ==> entries.contains(
                #[trigger] remembered(entries, key, value, limit)[i],
            ) && remembered(entries, key, value, limit)[i].0 != key,
        (forall|i: int| 0 <= i < entries.len() ==> (#[trigger] entries[i]).0 != key)
            ==> remembered(entries, key, value, limit).skip(1) == if entries.len() < limit {
            entries
        } else {
            entries.drop_last()
        },
        forall|i: int|
            0 <= i < entries.len() && (#[trigger] entries[i]).0 == key ==> forall|e|
                entries.contains(e) && e.0 != key ==> #[trigger] remembered(
                    entries,
                    key,
                    value,
                    limit,
                ).contains(e),
{
    broadcast use crate::text::filtering;

    let after = remembered(entries, key, value, limit);
    if forall|i: int| 0 <= i < entries.len() ==> (#[trigger] entries[i]).0 != key {
        if entries.len() < limit {
            assert(after.skip(1) =~= entries);
        } else {
            assert(after.skip(1) =~= entries.drop_last());
        }
    }
    assert forall|i: int| 0 <= i < entries.len() && (#[trigger] entries[i]).0 == key implies (
    forall|e|
        entries.contains(e) && e.0 != key ==> #[trigger] after.contains(e)) by {
        assert(after.len() <= entries.len());
        assert forall|e| entries.contains(e) && e.0 != key implies #[trigger] after.contains(
            e,
        ) by {
            let k = after.skip(1).index_of(e);
            assert(after.skip(1).contains(e));
            assert(after[k + 1] == e);
        }
    }
}

} // verus!
