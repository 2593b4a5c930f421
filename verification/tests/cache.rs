use std::sync::Arc;
use tachyon::cache::{CacheEntry, CacheShard, HotCache};
use tachyon::key::fast_hash;

fn keys_of_shard(shard: usize, count: usize) -> Vec<String> {
    let mut keys = Vec::new();
    let mut n: u64 = 0;
    while keys.len() < count {
        let key = format!("0:/items/{}", n);
        if (fast_hash(&key) & 31) as usize == shard {
            keys.push(key);
        }
        n += 1;
    }
    keys
}

#[test]
fn new_entry_counts_one_access() {
    let entry = CacheEntry::new(Arc::new(7u32));
    assert_eq!(entry.access_count, 1);
    assert_eq!(*entry.handler, 7);
}

#[test]
fn touch_counts_one_more_access() {
    let mut entry = CacheEntry::new(Arc::new(7u32));
    entry.touch();
    entry.touch();
    assert_eq!(entry.access_count, 3);
    assert_eq!(*entry.handler, 7);
}

#[test]
fn touch_never_lowers_the_count() {
    let mut entry = CacheEntry { handler: Arc::new(7u32), access_count: u64::MAX - 1 };
    entry.touch();
    assert_eq!(entry.access_count, u64::MAX);
    entry.touch();
    assert_eq!(entry.access_count, u64::MAX);
}

#[test]
fn empty_shard_finds_nothing() {
    let mut shard: CacheShard<u32> = CacheShard::new();
    assert!(shard.get(1).is_none());
    shard.evict_lfu();
    assert!(shard.get(1).is_none());
}

#[test]
fn shard_finds_what_was_inserted() {
    let mut shard: CacheShard<u32> = CacheShard::new();
    let first = Arc::new(10u32);
    let second = Arc::new(20u32);
    shard.insert(1, Arc::clone(&first));
    shard.insert(2, Arc::clone(&second));
    // 2 is in the hot slot, 1 only in the map.
    assert!(Arc::ptr_eq(&shard.get(2).unwrap(), &second));
    assert!(Arc::ptr_eq(&shard.get(1).unwrap(), &first));
    assert!(shard.get(3).is_none());
}

#[test]
fn shard_insert_of_a_known_hash_replaces_the_handler() {
    let mut shard: CacheShard<u32> = CacheShard::new();
    shard.insert(1, Arc::new(10u32));
    shard.insert(1, Arc::new(11u32));
    assert_eq!(*shard.get(1).unwrap(), 11);
    shard.insert(2, Arc::new(20u32));
    assert_eq!(*shard.get(1).unwrap(), 11);
}

#[test]
fn shard_clear_forgets_slot_and_map() {
    let mut shard: CacheShard<u32> = CacheShard::new();
    shard.insert(1, Arc::new(10u32));
    shard.insert(2, Arc::new(20u32));
    shard.clear();
    assert!(shard.get(1).is_none());
    assert!(shard.get(2).is_none());
}

#[test]
fn evict_lfu_takes_the_least_used_entry() {
    let mut shard: CacheShard<u32> = CacheShard::new();
    shard.insert(1, Arc::new(10u32));
    shard.insert(2, Arc::new(20u32));
    shard.insert(3, Arc::new(30u32));
    // 3 sits in the hot slot, so lookups of 1 and 2 count on the map.
    assert!(shard.get(1).is_some());
    assert!(shard.get(1).is_some());
    assert!(shard.get(2).is_some());
    // Counts in the map: 1 -> 3, 2 -> 2, 3 -> 1.
    shard.evict_lfu();
    shard.insert(9, Arc::new(90u32));
    assert!(shard.get(3).is_none());
    assert!(shard.get(1).is_some());
    assert!(shard.get(2).is_some());
    // Counts now: 1 -> 4, 2 -> 3, 9 -> 1.
    shard.evict_lfu();
    assert!(shard.get(1).is_some());
    assert!(shard.get(2).is_some());
    shard.insert(8, Arc::new(80u32));
    assert!(shard.get(9).is_none());
}

#[test]
fn full_shard_evicts_exactly_the_least_used_entry() {
    let mut shard: CacheShard<u32> = CacheShard::new();
    // 128 entries fill the map. The last one inserted, 127, never gets a
    // lookup counted on the map.
    for hash in 0u64..128 {
        shard.insert(hash, Arc::new(hash as u32));
    }
    for hash in 0u64..127 {
        assert_eq!(*shard.get(hash).unwrap(), hash as u32);
    }
    shard.insert(1000, Arc::new(1000u32));
    assert!(shard.get(127).is_none());
    for hash in 0u64..127 {
        assert_eq!(*shard.get(hash).unwrap(), hash as u32);
    }
    assert_eq!(*shard.get(1000).unwrap(), 1000);
}

#[test]
fn shard_below_its_bound_evicts_nothing() {
    let mut shard: CacheShard<u32> = CacheShard::new();
    for hash in 0u64..128 {
        shard.insert(hash, Arc::new(hash as u32));
    }
    for hash in 0u64..128 {
        assert_eq!(*shard.get(hash).unwrap(), hash as u32);
    }
}

#[test]
fn full_shard_stays_full_as_insertions_go_on() {
    let mut shard: CacheShard<u32> = CacheShard::new();
    for hash in 0u64..300 {
        shard.insert(hash, Arc::new(hash as u32));
    }
    let mut held = 0;
    for hash in 0u64..300 {
        if shard.get(hash).is_some() {
            held += 1;
        }
    }
    assert_eq!(held, 128);
}

#[test]
fn empty_cache_misses() {
    let mut cache: HotCache<u32> = HotCache::new();
    assert!(cache.get("0:/users").is_none());
    assert_eq!(cache.stats(), (0, 1));
}

#[test]
fn default_cache_is_empty() {
    let mut cache: HotCache<u32> = HotCache::default();
    assert_eq!(cache.stats(), (0, 0));
    assert!(cache.get("0:/users").is_none());
}

#[test]
fn cache_finds_what_was_set() {
    let mut cache: HotCache<u32> = HotCache::new();
    let handler = Arc::new(5u32);
    cache.set("0:/users".to_string(), Arc::clone(&handler));
    let found = cache.get("0:/users").unwrap();
    assert!(Arc::ptr_eq(&found, &handler));
    assert!(cache.get("0:/posts").is_none());
    assert_eq!(cache.stats(), (1, 1));
}

#[test]
fn repeated_get_returns_the_same_handler() {
    let mut cache: HotCache<u32> = HotCache::new();
    let handler = Arc::new(5u32);
    let other = Arc::new(6u32);
    cache.set("0:/users".to_string(), Arc::clone(&handler));
    cache.set("0:/posts".to_string(), Arc::clone(&other));
    for _ in 0..50 {
        assert!(Arc::ptr_eq(&cache.get("0:/users").unwrap(), &handler));
        assert!(Arc::ptr_eq(&cache.get("0:/posts").unwrap(), &other));
    }
    assert_eq!(cache.stats(), (100, 0));
}

#[test]
fn set_does_not_count_as_a_lookup() {
    let mut cache: HotCache<u32> = HotCache::new();
    cache.set("0:/users".to_string(), Arc::new(5u32));
    assert_eq!(cache.stats(), (0, 0));
}

#[test]
fn keys_of_one_shard_share_slot_and_map() {
    let keys = keys_of_shard(3, 3);
    let mut cache: HotCache<u32> = HotCache::new();
    for (n, key) in keys.iter().enumerate() {
        cache.set(key.clone(), Arc::new(n as u32));
    }
    for (n, key) in keys.iter().enumerate() {
        assert_eq!(*cache.get(key).unwrap(), n as u32);
    }
}

#[test]
fn one_key_more_than_a_shard_holds_evicts_the_least_used() {
    let keys = keys_of_shard(0, 129);
    let mut cache: HotCache<u32> = HotCache::new();
    for (n, key) in keys.iter().take(128).enumerate() {
        cache.set(key.clone(), Arc::new(n as u32));
    }
    // Every key but the one set last gets a lookup counted in the map.
    for (n, key) in keys.iter().take(127).enumerate() {
        assert_eq!(*cache.get(key).unwrap(), n as u32);
    }
    cache.set(keys[128].clone(), Arc::new(128));
    assert!(cache.get(&keys[127]).is_none());
    for (n, key) in keys.iter().take(127).enumerate() {
        assert_eq!(*cache.get(key).unwrap(), n as u32);
    }
    assert_eq!(*cache.get(&keys[128]).unwrap(), 128);
    assert_eq!(cache.stats(), (127 + 127 + 1, 1));
}

#[test]
fn other_shards_are_not_touched_by_an_eviction() {
    let crowded = keys_of_shard(1, 200);
    let calm = keys_of_shard(2, 5);
    let mut cache: HotCache<u32> = HotCache::new();
    for (n, key) in calm.iter().enumerate() {
        cache.set(key.clone(), Arc::new(n as u32));
    }
    for (n, key) in crowded.iter().enumerate() {
        cache.set(key.clone(), Arc::new(1000 + n as u32));
    }
    for (n, key) in calm.iter().enumerate() {
        assert_eq!(*cache.get(key).unwrap(), n as u32);
    }
    let held = crowded.iter().filter(|key| cache.get(key.as_str()).is_some()).count();
    assert_eq!(held, 128);
}

#[test]
fn get_or_insert_asks_the_factory_only_on_a_miss() {
    let mut cache: HotCache<u32> = HotCache::new();
    let made = cache.get_or_insert("0:/users", || Some(Arc::new(1u32)));
    assert_eq!(*made.unwrap(), 1);
    let again = cache.get_or_insert("0:/users", || Some(Arc::new(2u32)));
    assert_eq!(*again.unwrap(), 1);
    assert_eq!(cache.stats(), (1, 1));
}

#[test]
fn get_or_insert_stores_nothing_when_the_factory_gives_nothing() {
    let mut cache: HotCache<u32> = HotCache::new();
    assert!(cache.get_or_insert("0:/users", || None).is_none());
    assert!(cache.get("0:/users").is_none());
    assert_eq!(cache.stats(), (0, 2));
}

#[test]
fn clear_forgets_entries_and_keeps_counts() {
    let mut cache: HotCache<u32> = HotCache::new();
    cache.set("0:/users".to_string(), Arc::new(5u32));
    assert!(cache.get("0:/users").is_some());
    cache.clear();
    assert_eq!(cache.stats(), (1, 0));
    assert!(cache.get("0:/users").is_none());
    assert_eq!(cache.stats(), (1, 1));
}
