use tts_gateway::cache::{AudioCache, CacheEntry};

fn key(tag: u8) -> Vec<u8> {
    let mut k = vec![0u8; 32];
    k[0] = tag;
    k
}

fn entry(byte: u8) -> CacheEntry {
    CacheEntry::new(vec![byte; 16], Some(String::from("audio/wav")))
}

#[test]
fn cache_round_trip_returns_identical_entry() {
    let mut cache = AudioCache::new(8);
    cache.insert(key(1), CacheEntry::new(vec![1, 2, 3], Some(String::from("audio/mpeg"))));
    let hit = cache.lookup(&key(1)).expect("inserted key must be found");
    assert_eq!(hit.audio, vec![1, 2, 3]);
    assert_eq!(hit.content_type.as_deref(), Some("audio/mpeg"));
}

#[test]
fn cache_miss_is_none() {
    let mut cache = AudioCache::new(8);
    cache.insert(key(1), entry(1));
    assert!(cache.lookup(&key(2)).is_none());
}

#[test]
fn cache_eviction_drops_least_recently_used() {
    let capacity = 3;
    let mut cache = AudioCache::new(capacity);
    for tag in 0..=capacity as u8 {
        cache.insert(key(tag), entry(tag));
    }
    // capacity + 1 distinct keys went in: the first-inserted one is gone,
    // the last `capacity` are present.
    assert!(cache.lookup(&key(0)).is_none());
    for tag in 1..=capacity as u8 {
        let hit = cache.lookup(&key(tag)).expect("recent key must remain");
        assert_eq!(hit.audio, vec![tag; 16]);
    }
}

#[test]
fn cache_lookup_refreshes_recency() {
    let mut cache = AudioCache::new(2);
    cache.insert(key(1), entry(1));
    cache.insert(key(2), entry(2));
    // Touch key 1, making key 2 the least recently used.
    assert!(cache.lookup(&key(1)).is_some());
    cache.insert(key(3), entry(3));
    assert!(cache.lookup(&key(1)).is_some());
    assert!(cache.lookup(&key(2)).is_none());
    assert!(cache.lookup(&key(3)).is_some());
}

#[test]
fn cache_insert_replaces_same_key_without_eviction() {
    let mut cache = AudioCache::new(2);
    cache.insert(key(1), entry(1));
    cache.insert(key(2), entry(2));
    cache.insert(key(1), entry(9));
    let hit = cache.lookup(&key(1)).expect("replaced key still present");
    assert_eq!(hit.audio, vec![9u8; 16]);
    assert!(cache.lookup(&key(2)).is_some(), "replacement must not evict");
}

#[test]
fn cache_entry_without_tag() {
    let mut cache = AudioCache::new(4);
    cache.insert(key(7), CacheEntry::new(vec![7], None));
    let hit = cache.lookup(&key(7)).unwrap();
    assert!(hit.content_type.is_none());
}
