//! The sharded hot cache.
//!
//! The cache maps the hash of a route key to a handler. It is split into 32
//! shards, chosen by the low bits of the hash. A shard holds a bounded map
//! and, beside it, one hot slot for the entry written last. A lookup tries
//! the hot slot first and the map second, and counts the access on the entry
//! it finds. When the map is full, an insertion first evicts one entry with
//! the lowest access count.
//!
//! The cache compares hashes only. Two route keys with the same hash are the
//! same entry to it.

use crate::key::{fast_hash, key_hash};
use std::collections::HashMap;
use std::sync::Arc;
use vstd::prelude::*;
use vstd::std_specs::hash::spec_hash_map_iter;
use vstd::std_specs::iter::IteratorSpec;

verus! {

broadcast use vstd::std_specs::hash::group_hash_axioms;

/// The number of shards.
pub const NUM_SHARDS: usize = 32;

/// The most entries that the map of one shard holds.
pub const MAX_ENTRIES_PER_SHARD: usize = 128;

/// A count of lookups one step on. It starts again at zero after the
/// largest value.
pub open spec fn bumped(count: u64) -> u64 {
    if count == u64::MAX {
        0
    } else {
        (count + 1) as u64
    }
}

/// An access count one step on. It never falls: at the largest value it
/// stays.
pub open spec fn raised(count: u64) -> u64 {
    if count == u64::MAX {
        count
    } else {
        (count + 1) as u64
    }
}

/// The shard that holds the entries of a hash: the hash modulo the number of
/// shards.
pub open spec fn shard_of(hash: u64) -> int {
    hash as int % 32
}

/// A cached handler and the number of times it was looked up.
pub struct CacheEntry<F> {
    pub handler: Arc<F>,
    pub access_count: u64,
}

impl<F> CacheEntry<F> {
    /// The entry of a handler that was just inserted: it counts as accessed
    /// once.
    pub open spec fn fresh(handler: Arc<F>) -> Self {
        CacheEntry { handler, access_count: 1 }
    }

    /// The entry after one more access: the same handler, the count one
    /// step on.
    pub open spec fn touched(self) -> Self {
        CacheEntry { handler: self.handler, access_count: raised(self.access_count) }
    }

    /// A new entry for the handler, counted as accessed once.
    pub fn new(handler: Arc<F>) -> (entry: Self)
        ensures
            entry == Self::fresh(handler),
    {
        CacheEntry { handler, access_count: 1 }
    }

    /// Counts one more access.
    pub fn touch(&mut self)
        ensures
            *final(self) == old(self).touched(),
    {
        self.access_count = self.access_count.saturating_add(1);
    }
}

/// What a shard holds: the entries of its map by hash, and its hot slot.
pub struct ShardView<F> {
    pub entries: Map<u64, CacheEntry<F>>,
    pub hot_slot: Option<(u64, CacheEntry<F>)>,
}

impl<F> ShardView<F> {
    /// The map is finite and within its bound.
    pub open spec fn wf(self) -> bool {
        &&& self.entries.dom().finite()
        &&& self.entries.len() <= MAX_ENTRIES_PER_SHARD
    }

    /// The shard that holds nothing.
    pub open spec fn empty() -> Self {
        ShardView { entries: Map::empty(), hot_slot: None }
    }

    /// Whether the hot slot holds an entry for the hash.
    pub open spec fn slot_holds(self, hash: u64) -> bool {
        self.hot_slot matches Some(slot) && slot.0 == hash
    }

    /// The entry in the hot slot, where the slot holds one.
    pub open spec fn slot_entry(self) -> CacheEntry<F> {
        (self.hot_slot->0).1
    }

    /// The handler that a lookup of the hash finds: that of the hot slot if
    /// it holds the hash, else that of the map's entry, else none.
    pub open spec fn found(self, hash: u64) -> Option<Arc<F>> {
        if self.slot_holds(hash) {
            Some(self.slot_entry().handler)
        } else if self.entries.contains_key(hash) {
            Some(self.entries[hash].handler)
        } else {
            None
        }
    }

    /// The shard after a lookup of the hash: the entry that was found has
    /// one more access, and nothing else has changed.
    pub open spec fn after_lookup(self, hash: u64) -> Self {
        if self.slot_holds(hash) {
            ShardView {
                entries: self.entries,
                hot_slot: Some((hash, self.slot_entry().touched())),
            }
        } else if self.entries.contains_key(hash) {
            ShardView {
                entries: self.entries.insert(hash, self.entries[hash].touched()),
                hot_slot: self.hot_slot,
            }
        } else {
            self
        }
    }

    /// The handlers that the shard holds, without their counts: those of the
    /// map by hash, and the hash and handler of the hot slot.
    pub open spec fn handlers(self) -> (Map<u64, Arc<F>>, Option<(u64, Arc<F>)>) {
        (
            self.entries.map_values(|entry: CacheEntry<F>| entry.handler),
            match self.hot_slot {
                Some(slot) => Some((slot.0, slot.1.handler)),
                None => None,
            },
        )
    }

    /// Whether the shard keeps the handler: in an entry of its map or in its
    /// hot slot.
    pub open spec fn keeps(self, handler: Arc<F>) -> bool {
        ||| exists|hash: u64|
            self.entries.contains_key(hash) && (#[trigger] self.entries[hash]).handler == handler
        ||| self.hot_slot matches Some(slot) && slot.1.handler == handler
    }

    /// Whether the map holds the hash and no entry of the map has a lower
    /// access count than that one.
    pub open spec fn least_used(self, victim: u64) -> bool {
        &&& self.entries.contains_key(victim)
        &&& forall|other: u64|
            self.entries.contains_key(other) ==> self.entries[victim].access_count
                <= #[trigger] self.entries[other].access_count
    }

    /// The shard without the map's entry for the hash.
    pub open spec fn evict(self, victim: u64) -> Self {
        ShardView { entries: self.entries.remove(victim), hot_slot: self.hot_slot }
    }

    /// The shard with a fresh entry for the hash in the hot slot and in the
    /// map.
    pub open spec fn put(self, hash: u64, handler: Arc<F>) -> Self {
        ShardView {
            entries: self.entries.insert(hash, CacheEntry::fresh(handler)),
            hot_slot: Some((hash, CacheEntry::fresh(handler))),
        }
    }

    /// The shard after a run of hashes was put with their handlers, one
    /// after the other.
    pub open spec fn after_puts(self, hashes: Seq<u64>, handlers: Seq<Arc<F>>) -> Self
        decreases hashes.len(),
    {
        if hashes.len() == 0 || handlers.len() == 0 {
            self
        } else {
            self.after_puts(hashes.drop_last(), handlers.drop_last()).put(
                hashes.last(),
                handlers.last(),
            )
        }
    }

    /// Whether `next` is this shard after the insertion of a handler under a
    /// hash. Below the bound the entry is put and nothing leaves. At the
    /// bound one least-used entry is evicted first; which one, among several
    /// with the lowest count, is left open.
    pub open spec fn inserted(self, next: Self, hash: u64, handler: Arc<F>) -> bool {
        if self.entries.len() >= MAX_ENTRIES_PER_SHARD {
            exists|victim: u64| #[trigger]
                self.least_used(victim) && next == self.evict(victim).put(hash, handler)
        } else {
            next == self.put(hash, handler)
        }
    }
}

/// One shard of the cache.
pub struct CacheShard<F> {
    entries: HashMap<u64, CacheEntry<F>>,
    hot_slot: Option<(u64, CacheEntry<F>)>,
}

impl<F> View for CacheShard<F> {
    type V = ShardView<F>;

    closed spec fn view(&self) -> ShardView<F> {
        ShardView { entries: self.entries@, hot_slot: self.hot_slot }
    }
}

impl<F> CacheShard<F> {
    /// A shard that holds nothing.
    pub fn new() -> (shard: Self)
        ensures
            shard@ == ShardView::<F>::empty(),
            shard@.wf(),
    {
        CacheShard { entries: HashMap::new(), hot_slot: None }
    }

    /// Looks the hash up, in the hot slot first and in the map second, and
    /// counts the access on the entry found.
    pub fn get(&mut self, hash: u64) -> (handler: Option<Arc<F>>)
        requires
            old(self)@.wf(),
        ensures
            handler == old(self)@.found(hash),
            final(self)@ == old(self)@.after_lookup(hash),
            final(self)@.wf(),
    {
        match self.hot_slot.take() {
            Some((slot_hash, mut entry)) => {
                if slot_hash == hash {
                    entry.touch();
                    let handler = Arc::clone(&entry.handler);
                    self.hot_slot = Some((slot_hash, entry));
                    return Some(handler);
                }
                self.hot_slot = Some((slot_hash, entry));
            },
            None => {},
        }
        match self.entries.remove(&hash) {
            Some(mut entry) => {
                entry.touch();
                let handler = Arc::clone(&entry.handler);
                self.entries.insert(hash, entry);
                assert(self.entries@ =~= old(self).entries@.insert(
                    hash,
                    old(self).entries@[hash].touched(),
                ));
                assert(self.entries@.dom() =~= old(self).entries@.dom());
                Some(handler)
            },
            None => {
                assert(self.entries@ =~= old(self).entries@);
                None
            },
        }
    }

    /// Puts the handler under the hash into the hot slot and into the map.
    /// If the map is at its bound, one entry with the lowest access count
    /// is evicted first.
    pub fn insert(&mut self, hash: u64, handler: Arc<F>)
        requires
            old(self)@.wf(),
        ensures
            old(self)@.inserted(final(self)@, hash, handler),
            final(self)@.wf(),
    {
        self.hot_slot = Some((hash, CacheEntry::new(Arc::clone(&handler))));
        if self.entries.len() >= MAX_ENTRIES_PER_SHARD {
            let ghost full = self@;
            self.evict_lfu();
            let ghost victim = choose|victim: u64| #[trigger]
                full.least_used(victim) && self@ == full.evict(victim);
            self.entries.insert(hash, CacheEntry::new(handler));
            assert(old(self)@.least_used(victim) && self@ == old(self)@.evict(victim).put(
                hash,
                handler,
            ));
        } else {
            self.entries.insert(hash, CacheEntry::new(handler));
        }
    }

    /// Evicts one entry with the lowest access count from the map, if the
    /// map holds any. The hot slot stays as it is.
    pub fn evict_lfu(&mut self)
        requires
            old(self)@.entries.dom().finite(),
        ensures
            final(self)@.entries.dom().finite(),
            old(self)@.entries.len() == 0 ==> final(self)@ == old(self)@,
            old(self)@.entries.len() > 0 ==> final(self)@.entries.len() + 1 == old(
                self,
            )@.entries.len(),
            old(self)@.entries.len() > 0 ==> exists|victim: u64| #[trigger]
                old(self)@.least_used(victim) && final(self)@ == old(self)@.evict(victim),
    {
        match least_used_key(&self.entries) {
            Some(victim) => {
                self.entries.remove(&victim);
                assert(old(self)@.least_used(victim) && self@ == old(self)@.evict(victim));
            },
            None => {
                assert(self.entries@ =~= old(self).entries@);
            },
        }
    }

    /// Forgets everything the shard holds.
    pub fn clear(&mut self)
        ensures
            final(self)@ == ShardView::<F>::empty(),
            final(self)@.wf(),
    {
        self.hot_slot = None;
        self.entries.clear();
    }
}

/// The hash of the first entry, in the order in which the map is walked,
/// whose access count no other entry undercuts.
fn least_used_key<F>(entries: &HashMap<u64, CacheEntry<F>>) -> (victim: Option<u64>)
    ensures
        match victim {
            Some(hash) => (ShardView { entries: entries@, hot_slot: None }).least_used(hash),
            None => entries@.len() == 0,
        },
{
    let ghost walked = spec_hash_map_iter(entries).remaining();
    let mut best: Option<(u64, u64)> = None;
    for pair in it: entries.iter()
        invariant
            it.seq() == walked,
            match best {
                Some((hash, count)) => {
                    &&& entries@.contains_key(hash)
                    &&& entries@[hash].access_count == count
                    &&& forall|i: int|
                        0 <= i < it.index() ==> count <= (#[trigger] walked[i]).1.access_count
                },
                None => it.index() == 0,
            },
    {
        let (hash, entry) = pair;
        let lower = match best {
            Some((_, count)) => entry.access_count < count,
            None => true,
        };
        if lower {
            best = Some((*hash, entry.access_count));
        }
    }
    proof {
        if let Some((hash, count)) = best {
            assert forall|other: u64| entries@.contains_key(other) implies count
                <= #[trigger] entries@[other].access_count by {
                assert(walked.contains((&other, &entries@[other])));
                let i = choose|i: int|
                    0 <= i < walked.len() && walked[i] == (&other, &entries@[other]);
                assert(count <= walked[i].1.access_count);
            }
        }
    }
    match best {
        Some((hash, _)) => Some(hash),
        None => None,
    }
}

/// A lookup in a shard changes no handler. Whatever hash is looked up, the
/// shard holds the same handlers under the same hashes afterwards, and
/// every lookup finds what it would have found before.
pub proof fn lemma_lookup_keeps_handlers<F>(shard: ShardView<F>, hash: u64, other: u64)
    requires
        shard.wf(),
    ensures
        shard.after_lookup(hash).wf(),
        shard.after_lookup(hash).handlers() == shard.handlers(),
        shard.after_lookup(hash).found(other) == shard.found(other),
{
    let next = shard.after_lookup(hash);
    assert(next.entries.dom() =~= shard.entries.dom());
    assert(next.handlers().0 =~= shard.handlers().0);
}

/// Filling a shard evicts nothing. As long as no more distinct hashes are
/// inserted into an empty shard than its map holds, every insertion is a
/// plain put: afterwards the map holds exactly those hashes, each with a
/// fresh entry for its handler, and the hot slot holds the last of them.
pub proof fn lemma_filling_evicts_nothing<F>(hashes: Seq<u64>, handlers: Seq<Arc<F>>)
    requires
        hashes.no_duplicates(),
        hashes.len() == handlers.len(),
        hashes.len() <= MAX_ENTRIES_PER_SHARD,
    ensures
        ({
            let filled = ShardView::<F>::empty().after_puts(hashes, handlers);
            &&& filled.wf()
            &&& filled.entries.len() == hashes.len()
            &&& forall|hash: u64| filled.entries.contains_key(hash) <==> hashes.contains(hash)
            &&& forall|i: int|
                0 <= i < hashes.len() ==> filled.entries[#[trigger] hashes[i]] == CacheEntry::fresh(
                    handlers[i],
                )
            &&& hashes.len() > 0 ==> ShardView::<F>::empty().after_puts(
                hashes.drop_last(),
                handlers.drop_last(),
            ).inserted(filled, hashes.last(), handlers.last())
        }),
    decreases hashes.len(),
{
    let filled = ShardView::<F>::empty().after_puts(hashes, handlers);
    if hashes.len() > 0 {
        let earlier_hashes = hashes.drop_last();
        let earlier_handlers = handlers.drop_last();
        let earlier = ShardView::<F>::empty().after_puts(earlier_hashes, earlier_handlers);
        assert forall|i: int, j: int|
            0 <= i < earlier_hashes.len() && 0 <= j < earlier_hashes.len() && i
                != j implies earlier_hashes[i] != earlier_hashes[j] by {
            assert(earlier_hashes[i] == hashes[i]);
            assert(earlier_hashes[j] == hashes[j]);
        }
        lemma_filling_evicts_nothing(earlier_hashes, earlier_handlers);
        let last = hashes.last();
        assert(!earlier.entries.contains_key(last)) by {
            if earlier_hashes.contains(last) {
                let i = choose|i: int| 0 <= i < earlier_hashes.len() && earlier_hashes[i] == last;
                assert(hashes[i] == last);
                assert(hashes[hashes.len() - 1] == last);
            }
        }
        assert forall|hash: u64| filled.entries.contains_key(hash) <==> hashes.contains(
            hash,
        ) by {
            if hashes.contains(hash) {
                let i = choose|i: int| 0 <= i < hashes.len() && hashes[i] == hash;
                if i < hashes.len() - 1 {
                    assert(earlier_hashes[i] == hash);
                    assert(earlier_hashes.contains(hash));
                }
            }
            if filled.entries.contains_key(hash) && hash != last {
                assert(earlier_hashes.contains(hash));
                let i = choose|i: int| 0 <= i < earlier_hashes.len() && earlier_hashes[i] == hash;
                assert(hashes[i] == hash);
            } else if hash == last {
                assert(hashes[hashes.len() - 1] == last);
            }
        }
        assert forall|i: int| 0 <= i < hashes.len() implies filled.entries[#[trigger] hashes[i]]
            == CacheEntry::fresh(handlers[i]) by {
            if i < hashes.len() - 1 {
                assert(earlier_hashes[i] == hashes[i]);
                assert(earlier_handlers[i] == handlers[i]);
                assert(hashes[i] != last);
            }
        }
    }
}

/// Eviction takes exactly one entry, and a least-used one. Below the bound
/// an insertion evicts nothing. At the bound, the insertion of a hash that
/// the map does not hold leaves exactly one earlier entry absent: one whose
/// access count no other entry of the map undercut. Every other entry stays
/// as it was, and the map is at its bound again. Either way the shard then
/// finds the inserted handler under the hash.
pub proof fn lemma_insertion_evicts_least_used<F>(
    shard: ShardView<F>,
    next: ShardView<F>,
    hash: u64,
    handler: Arc<F>,
)
    requires
        shard.wf(),
        shard.inserted(next, hash, handler),
    ensures
        next.wf(),
        next.found(hash) == Some(handler),
        next.entries.contains_key(hash),
        shard.entries.len() < MAX_ENTRIES_PER_SHARD ==> forall|kept: u64|
            shard.entries.contains_key(kept) ==> #[trigger] next.entries.contains_key(kept),
        shard.entries.len() < MAX_ENTRIES_PER_SHARD && !shard.entries.contains_key(hash)
            ==> next.entries.len() == shard.entries.len() + 1,
        shard.entries.len() == MAX_ENTRIES_PER_SHARD && !shard.entries.contains_key(hash)
            ==> next.entries.len() == MAX_ENTRIES_PER_SHARD && exists|victim: u64|
            {
                &&& #[trigger] shard.least_used(victim)
                &&& !next.entries.contains_key(victim)
                &&& forall|kept: u64|
                    shard.entries.contains_key(kept) && kept != victim
                        ==> #[trigger] next.entries.contains_key(kept) && next.entries[kept]
                        == shard.entries[kept]
            },
{
    if shard.entries.len() >= MAX_ENTRIES_PER_SHARD {
        let victim = choose|victim: u64| #[trigger]
            shard.least_used(victim) && next == shard.evict(victim).put(hash, handler);
        assert(shard.least_used(victim));
        if !shard.entries.contains_key(hash) {
            assert(victim != hash);
            assert(!next.entries.contains_key(victim));
            assert forall|kept: u64|
                shard.entries.contains_key(kept) && kept != victim implies #[trigger] next.entries.contains_key(
                kept,
            ) && next.entries[kept] == shard.entries[kept] by {}
        }
    }
}

/// What the cache holds: its shards in order, and the counts of lookups that
/// found a handler and of lookups that found none.
pub struct HotCacheView<F> {
    pub shards: Seq<ShardView<F>>,
    pub hits: u64,
    pub misses: u64,
}

impl<F> HotCacheView<F> {
    /// There are 32 shards, each within its bound.
    pub open spec fn wf(self) -> bool {
        &&& self.shards.len() == NUM_SHARDS
        &&& forall|i: int| 0 <= i < self.shards.len() ==> (#[trigger] self.shards[i]).wf()
    }

    /// The cache that holds nothing and has counted nothing.
    pub open spec fn empty() -> Self {
        HotCacheView {
            shards: Seq::new(NUM_SHARDS as nat, |i: int| ShardView::empty()),
            hits: 0,
            misses: 0,
        }
    }

    /// The shard that holds the entries of the route key.
    pub open spec fn shard_for(self, key: Seq<char>) -> ShardView<F> {
        self.shards[shard_of(key_hash(key))]
    }

    /// The handler that a lookup of the route key finds.
    pub open spec fn found(self, key: Seq<char>) -> Option<Arc<F>> {
        self.shard_for(key).found(key_hash(key))
    }

    /// The cache after a lookup of the route key: the access is counted on
    /// the entry found, and the lookup is counted as a hit or as a miss.
    pub open spec fn after_get(self, key: Seq<char>) -> Self {
        let hash = key_hash(key);
        let hit = self.found(key) is Some;
        HotCacheView {
            shards: self.shards.update(shard_of(hash), self.shard_for(key).after_lookup(hash)),
            hits: if hit {
                bumped(self.hits)
            } else {
                self.hits
            },
            misses: if hit {
                self.misses
            } else {
                bumped(self.misses)
            },
        }
    }

    /// Whether `next` is this cache after the handler was stored under the
    /// route key: the key's shard has taken the insertion, and nothing else
    /// has changed.
    pub open spec fn stored(self, next: Self, key: Seq<char>, handler: Arc<F>) -> bool {
        let hash = key_hash(key);
        &&& next.shards.len() == self.shards.len()
        &&& self.shard_for(key).inserted(next.shard_for(key), hash, handler)
        &&& forall|i: int|
            0 <= i < self.shards.len() && i != shard_of(hash) ==> #[trigger] next.shards[i]
                == self.shards[i]
        &&& next.hits == self.hits
        &&& next.misses == self.misses
    }

    /// The cache with every shard emptied. The counts of hits and misses
    /// stay.
    pub open spec fn cleared(self) -> Self {
        HotCacheView {
            shards: Seq::new(NUM_SHARDS as nat, |i: int| ShardView::empty()),
            hits: self.hits,
            misses: self.misses,
        }
    }

    /// Whether the cache keeps the handler in one of its shards.
    pub open spec fn keeps(self, handler: Arc<F>) -> bool {
        exists|i: int| 0 <= i < self.shards.len() && (#[trigger] self.shards[i]).keeps(handler)
    }

    /// The handlers that the cache holds, shard by shard, without their
    /// counts.
    pub open spec fn handlers(self) -> Seq<(Map<u64, Arc<F>>, Option<(u64, Arc<F>)>)> {
        Seq::new(self.shards.len(), |i: int| self.shards[i].handlers())
    }
}

/// The hot cache: 32 shards and the counts of hits and misses.
pub struct HotCache<F> {
    shards: Vec<CacheShard<F>>,
    hits: u64,
    misses: u64,
}

impl<F> View for HotCache<F> {
    type V = HotCacheView<F>;

    closed spec fn view(&self) -> HotCacheView<F> {
        HotCacheView {
            shards: Seq::new(self.shards@.len(), |i: int| self.shards@[i]@),
            hits: self.hits,
            misses: self.misses,
        }
    }
}

impl<F> HotCache<F> {
    /// An empty cache.
    pub fn new() -> (cache: Self)
        ensures
            cache@ == HotCacheView::<F>::empty(),
            cache@.wf(),
    {
        let mut shards: Vec<CacheShard<F>> = Vec::new();
        let mut i: usize = 0;
        while i < NUM_SHARDS
            invariant
                i <= NUM_SHARDS,
                shards@.len() == i,
                forall|j: int| 0 <= j < i ==> (#[trigger] shards@[j])@ == ShardView::<F>::empty(),
            decreases NUM_SHARDS - i,
        {
            shards.push(CacheShard::new());
            i = i + 1;
        }
        let cache = HotCache { shards, hits: 0, misses: 0 };
        assert(cache@.shards =~= HotCacheView::<F>::empty().shards);
        cache
    }

    /// The hash of a route key, as the cache takes it.
    pub fn hash(key: &str) -> (hash: u64)
        ensures
            hash == key_hash(key@),
    {
        fast_hash(key)
    }

    /// The index of the shard that holds the entries of a hash.
    pub fn shard_index(hash: u64) -> (index: usize)
        ensures
            index == shard_of(hash),
            index < NUM_SHARDS,
    {
        assert(hash & 31 == hash % 32) by (bit_vector);
        (hash & 31) as usize
    }

    /// Looks a route key up. The hot slot of the key's shard is tried first
    /// and its map second; the access is counted on the entry found, and the
    /// lookup is counted as a hit or as a miss.
    pub fn get(&mut self, route_key: &str) -> (handler: Option<Arc<F>>)
        requires
            old(self)@.wf(),
        ensures
            handler == old(self)@.found(route_key@),
            final(self)@ == old(self)@.after_get(route_key@),
            final(self)@.wf(),
    {
        let hash = Self::hash(route_key);
        let index = Self::shard_index(hash);
        assert(old(self)@.shards[index as int] == old(self).shards@[index as int]@);
        let result = self.shards[index].get(hash);
        if result.is_some() {
            self.hits = self.hits.wrapping_add(1);
        } else {
            self.misses = self.misses.wrapping_add(1);
        }
        assert(self@.shards =~= old(self)@.after_get(route_key@).shards);
        result
    }

    /// Stores the handler under the route key: in the hot slot of the key's
    /// shard and in its map, from which one least-used entry is evicted
    /// first if it is full.
    pub fn set(&mut self, route_key: String, handler: Arc<F>)
        requires
            old(self)@.wf(),
        ensures
            old(self)@.stored(final(self)@, route_key@, handler),
            final(self)@.wf(),
    {
        let hash = Self::hash(route_key.as_str());
        let index = Self::shard_index(hash);
        assert(old(self)@.shards[index as int] == old(self).shards@[index as int]@);
        self.shards[index].insert(hash, handler);
        assert(self@.shards[index as int] == self.shards@[index as int]@);
        assert forall|i: int|
            0 <= i < old(self)@.shards.len() && i != shard_of(hash) implies #[trigger] self@.shards[i]
            == old(self)@.shards[i] by {
            assert(self.shards@[i] == old(self).shards@[i]);
        }
    }

    /// Looks a route key up and, if the cache holds nothing for it, asks the
    /// factory for the handler and stores what it gives.
    pub fn get_or_insert<G: FnOnce() -> Option<Arc<F>>>(&mut self, route_key: &str, f: G) -> (handler:
        Option<Arc<F>>)
        requires
            old(self)@.wf(),
            call_requires(f, ()),
        ensures
            final(self)@.wf(),
            old(self)@.found(route_key@) is Some ==> handler == old(self)@.found(route_key@)
                && final(self)@ == old(self)@.after_get(route_key@),
            old(self)@.found(route_key@) is None ==> call_ensures(f, (), handler) && match handler {
                Some(made) => old(self)@.after_get(route_key@).stored(
                    final(self)@,
                    route_key@,
                    made,
                ),
                None => final(self)@ == old(self)@.after_get(route_key@),
            },
    {
        match self.get(route_key) {
            Some(handler) => {
                return Some(handler);
            },
            None => {},
        }
        match f() {
            Some(handler) => {
                self.set(route_key.to_owned(), Arc::clone(&handler));
                Some(handler)
            },
            None => None,
        }
    }

    /// Forgets every entry. The counts of hits and misses stay.
    pub fn clear(&mut self)
        requires
            old(self)@.wf(),
        ensures
            final(self)@ == old(self)@.cleared(),
            final(self)@.wf(),
    {
        let mut i: usize = 0;
        while i < NUM_SHARDS
            invariant
                i <= NUM_SHARDS,
                self.shards@.len() == NUM_SHARDS,
                self.hits == old(self).hits,
                self.misses == old(self).misses,
                forall|j: int| 0 <= j < i ==> (#[trigger] self.shards@[j])@ == ShardView::<F>::empty(),
            decreases NUM_SHARDS - i,
        {
            self.shards[i].clear();
            i = i + 1;
        }
        assert(self@.shards =~= old(self)@.cleared().shards);
    }

    /// The counts of lookups that found a handler and of lookups that found
    /// none.
    pub fn stats(&self) -> (counts: (u64, u64))
        ensures
            counts == (self@.hits, self@.misses),
    {
        (self.hits, self.misses)
    }
}

impl<F> Default for HotCache<F> {
    fn default() -> (cache: Self)
        ensures
            cache@ == HotCacheView::<F>::empty(),
            cache@.wf(),
    {
        Self::new()
    }
}

/// The cache keeps only what was stored in it. The empty cache keeps no
/// handler. A handler that a lookup finds is kept. A lookup adds no handler,
/// and storing a handler adds that handler and no other.
pub proof fn lemma_kept_handlers<F>(
    cache: HotCacheView<F>,
    next: HotCacheView<F>,
    key: Seq<char>,
    stored: Arc<F>,
    handler: Arc<F>,
)
    requires
        cache.wf(),
    ensures
        !HotCacheView::<F>::empty().keeps(handler),
        cache.found(key) == Some(handler) ==> cache.keeps(handler),
        cache.after_get(key).keeps(handler) ==> cache.keeps(handler),
        cache.stored(next, key, stored) && next.keeps(handler) ==> handler == stored || cache.keeps(
            handler,
        ),
{
    let hash = key_hash(key);
    let index = shard_of(hash);
    assert(0 <= index < cache.shards.len());
    let shard = cache.shards[index];
    assert(shard.wf());
    if cache.found(key) == Some(handler) {
        if !shard.slot_holds(hash) {
            assert(shard.entries[hash].handler == handler);
        }
        assert(shard.keeps(handler));
    }
    let looked = cache.after_get(key);
    if looked.keeps(handler) {
        let i = choose|i: int| 0 <= i < looked.shards.len() && (#[trigger] looked.shards[i]).keeps(
            handler,
        );
        if i == index {
            let after = looked.shards[i];
            if !(after.hot_slot matches Some(slot) && slot.1.handler == handler) {
                let at = choose|at: u64|
                    after.entries.contains_key(at) && (#[trigger] after.entries[at]).handler
                        == handler;
                assert(shard.entries.contains_key(at));
                assert(shard.entries[at].handler == handler);
            }
            assert(shard.keeps(handler));
        } else {
            assert(cache.shards[i] == looked.shards[i]);
        }
    }
    if cache.stored(next, key, stored) && next.keeps(handler) && handler != stored {
        let i = choose|i: int| 0 <= i < next.shards.len() && (#[trigger] next.shards[i]).keeps(
            handler,
        );
        if i == index {
            let after = next.shards[i];
            let at = choose|at: u64|
                after.entries.contains_key(at) && (#[trigger] after.entries[at]).handler == handler;
            assert(after.entries.contains_key(at) && after.entries[at].handler == handler);
            assert(shard.entries.contains_key(at));
            assert(shard.entries[at].handler == handler);
            assert(shard.keeps(handler));
        } else {
            assert(next.shards[i] == cache.shards[i]);
        }
    }
}

/// Lookups keep handlers. A lookup of a route key, made once or again,
/// changes no handler that the cache holds: afterwards every shard holds the
/// same handlers under the same hashes, and every lookup finds what it would
/// have found before. Only access counts and the counts of hits and misses
/// move.
pub proof fn lemma_get_keeps_handlers<F>(cache: HotCacheView<F>, key: Seq<char>, other: Seq<char>)
    requires
        cache.wf(),
    ensures
        cache.after_get(key).wf(),
        cache.after_get(key).handlers() == cache.handlers(),
        cache.after_get(key).found(other) == cache.found(other),
        cache.after_get(key).after_get(key).handlers() == cache.handlers(),
        cache.after_get(key).after_get(key).found(key) == cache.found(key),
{
    let hash = key_hash(key);
    let once = cache.after_get(key);
    lemma_get_step(cache, key, other);
    lemma_get_step(cache, key, key);
    lemma_get_step(once, key, key);
}

/// One lookup keeps the cache well-formed, keeps every handler, and keeps
/// what a lookup of any key finds.
proof fn lemma_get_step<F>(cache: HotCacheView<F>, key: Seq<char>, other: Seq<char>)
    requires
        cache.wf(),
    ensures
        cache.after_get(key).wf(),
        cache.after_get(key).handlers() == cache.handlers(),
        cache.after_get(key).found(other) == cache.found(other),
{
    let hash = key_hash(key);
    let index = shard_of(hash);
    let next = cache.after_get(key);
    assert(0 <= index < NUM_SHARDS);
    lemma_lookup_keeps_handlers(cache.shards[index], hash, key_hash(other));
    assert forall|i: int| 0 <= i < next.shards.len() implies (#[trigger] next.shards[i]).wf() by {
        if i != index {
            assert(next.shards[i] == cache.shards[i]);
        }
    }
    assert(next.handlers() =~= cache.handlers());
}

} // verus!
