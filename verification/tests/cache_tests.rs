use hackatime_heatmap::cache::{enforce_cache_limit, BoundedTtlCache, CacheEntry, CacheKey};

fn entry(key: u64, value: &str, inserted_at: u64) -> CacheEntry<u64, String> {
    CacheEntry { key, value: value.to_string(), inserted_at }
}

fn keys(entries: &Vec<CacheEntry<u64, String>>) -> Vec<u64> {
    entries.iter().map(|held| held.key).collect()
}

#[test]
fn limit_leaves_a_cache_with_room_alone() {
    let mut entries = vec![entry(1, "a", 10), entry(2, "b", 5)];
    enforce_cache_limit(&mut entries, 3);
    assert_eq!(keys(&entries), vec![1, 2]);
}

#[test]
fn limit_makes_room_for_one_more() {
    let mut entries = vec![entry(1, "a", 10), entry(2, "b", 5), entry(3, "c", 7)];
    enforce_cache_limit(&mut entries, 3);
    assert_eq!(keys(&entries), vec![1, 3]);
}

#[test]
fn limit_takes_the_oldest_entries_first() {
    let mut entries = vec![
        entry(1, "a", 40),
        entry(2, "b", 10),
        entry(3, "c", 30),
        entry(4, "d", 20),
        entry(5, "e", 50),
    ];
    enforce_cache_limit(&mut entries, 3);
    assert_eq!(keys(&entries), vec![1, 5]);
    assert_eq!(entries[0].value, "a");
    assert_eq!(entries[1].inserted_at, 50);
}

#[test]
fn limit_takes_the_first_of_entries_of_the_same_age() {
    let mut entries = vec![entry(1, "a", 7), entry(2, "b", 7), entry(3, "c", 7)];
    enforce_cache_limit(&mut entries, 3);
    assert_eq!(keys(&entries), vec![2, 3]);
    enforce_cache_limit(&mut entries, 1);
    assert_eq!(keys(&entries), Vec::<u64>::new());
}

#[test]
fn limit_of_zero_empties_the_cache() {
    let mut entries = vec![entry(1, "a", 1), entry(2, "b", 2)];
    enforce_cache_limit(&mut entries, 0);
    assert!(entries.is_empty());
    enforce_cache_limit(&mut entries, 0);
    assert!(entries.is_empty());
}

#[test]
fn limit_of_one_empties_the_cache() {
    let mut entries = vec![entry(1, "a", 1)];
    enforce_cache_limit(&mut entries, 1);
    assert!(entries.is_empty());
}

#[test]
fn new_cache_is_empty() {
    let cache: BoundedTtlCache<u64, String> = BoundedTtlCache::new(3, 100);
    assert_eq!(cache.len(), 0);
    assert_eq!(cache.capacity(), 3);
    assert_eq!(cache.ttl(), 100);
    assert_eq!(cache.get(&1, 0), None);
}

#[test]
fn inserted_value_is_found() {
    let mut cache: BoundedTtlCache<String, u32> = BoundedTtlCache::new(3, 100);
    cache.insert("a".to_string(), 1, 10);
    cache.insert("b".to_string(), 2, 11);
    assert_eq!(cache.get(&"a".to_string(), 12), Some(&1));
    assert_eq!(cache.get(&"b".to_string(), 12), Some(&2));
    assert_eq!(cache.get(&"c".to_string(), 12), None);
    assert_eq!(cache.len(), 2);
}

#[test]
fn one_insertion_more_than_the_capacity_evicts_the_oldest() {
    let capacity = 4;
    let mut cache: BoundedTtlCache<u64, u64> = BoundedTtlCache::new(capacity, 1_000);
    for key in 0..=(capacity as u64) {
        cache.insert(key, key * 10, 100 + key);
    }
    assert_eq!(cache.len(), capacity);
    assert_eq!(cache.get(&0, 200), None);
    for key in 1..=(capacity as u64) {
        assert_eq!(cache.get(&key, 200), Some(&(key * 10)));
    }
}

#[test]
fn eviction_goes_by_the_time_of_insertion_not_by_the_order() {
    let mut cache: BoundedTtlCache<u64, &'static str> = BoundedTtlCache::new(3, 1_000);
    cache.insert(1, "one", 30);
    cache.insert(2, "two", 10);
    cache.insert(3, "three", 20);
    cache.insert(4, "four", 40);
    assert_eq!(cache.len(), 3);
    assert_eq!(cache.get(&2, 50), None);
    assert_eq!(cache.get(&1, 50), Some(&"one"));
    assert_eq!(cache.get(&3, 50), Some(&"three"));
    assert_eq!(cache.get(&4, 50), Some(&"four"));
    cache.insert(5, "five", 50);
    assert_eq!(cache.get(&3, 50), None);
    assert_eq!(cache.get(&1, 50), Some(&"one"));
}

#[test]
fn entry_expires_after_its_time_to_live() {
    let mut cache: BoundedTtlCache<u64, u64> = BoundedTtlCache::new(10, 300);
    cache.insert(7, 70, 1_000);
    assert_eq!(cache.get(&7, 1_000), Some(&70));
    assert_eq!(cache.get(&7, 1_299), Some(&70));
    assert_eq!(cache.get(&7, 1_300), None);
    assert_eq!(cache.get(&7, 5_000), None);
    assert_eq!(cache.get(&7, u64::MAX), None);
    assert_eq!(cache.len(), 1);
}

#[test]
fn expired_entries_still_count() {
    let mut cache: BoundedTtlCache<u64, u64> = BoundedTtlCache::new(2, 10);
    cache.insert(1, 1, 0);
    cache.insert(2, 2, 100);
    assert_eq!(cache.get(&1, 100), None);
    assert_eq!(cache.len(), 2);
    cache.insert(3, 3, 100);
    assert_eq!(cache.len(), 2);
    assert_eq!(cache.get(&2, 100), Some(&2));
    assert_eq!(cache.get(&3, 100), Some(&3));
}

#[test]
fn entry_from_the_future_is_live() {
    let mut cache: BoundedTtlCache<u64, u64> = BoundedTtlCache::new(2, 10);
    cache.insert(1, 1, 500);
    assert_eq!(cache.get(&1, 100), Some(&1));
    assert_eq!(cache.get(&1, 509), Some(&1));
    assert_eq!(cache.get(&1, 510), None);
}

#[test]
fn time_to_live_of_zero_finds_nothing() {
    let mut cache: BoundedTtlCache<u64, u64> = BoundedTtlCache::new(2, 0);
    cache.insert(1, 1, 5);
    assert_eq!(cache.get(&1, 5), None);
    assert_eq!(cache.get(&1, 4), None);
    assert_eq!(cache.len(), 1);
}

#[test]
fn inserting_a_key_again_replaces_its_entry() {
    let mut cache: BoundedTtlCache<u64, &'static str> = BoundedTtlCache::new(3, 100);
    cache.insert(1, "old", 0);
    cache.insert(2, "two", 1);
    cache.insert(1, "new", 90);
    assert_eq!(cache.len(), 2);
    assert_eq!(cache.get(&1, 150), Some(&"new"));
    assert_eq!(cache.get(&1, 190), None);
    assert_eq!(cache.get(&2, 50), Some(&"two"));
}

#[test]
fn inserting_a_key_again_into_a_full_cache_makes_room_first() {
    let mut cache: BoundedTtlCache<u64, &'static str> = BoundedTtlCache::new(2, 100);
    cache.insert(1, "one", 10);
    cache.insert(2, "two", 20);
    cache.insert(2, "again", 30);
    assert_eq!(cache.len(), 1);
    assert_eq!(cache.get(&1, 30), None);
    assert_eq!(cache.get(&2, 30), Some(&"again"));
    cache.insert(1, "one", 40);
    cache.insert(1, "first", 50);
    assert_eq!(cache.len(), 1);
    assert_eq!(cache.get(&1, 50), Some(&"first"));
    assert_eq!(cache.get(&2, 50), None);
}

#[test]
fn cache_of_capacity_zero_holds_the_last_entry() {
    let mut cache: BoundedTtlCache<u64, u64> = BoundedTtlCache::new(0, 100);
    cache.insert(1, 1, 0);
    assert_eq!(cache.len(), 1);
    assert_eq!(cache.get(&1, 0), Some(&1));
    cache.insert(2, 2, 1);
    assert_eq!(cache.len(), 1);
    assert_eq!(cache.get(&1, 1), None);
    assert_eq!(cache.get(&2, 1), Some(&2));
}

#[test]
fn cache_of_capacity_one_holds_the_last_entry() {
    let mut cache: BoundedTtlCache<u64, u64> = BoundedTtlCache::new(1, 100);
    cache.insert(1, 1, 0);
    cache.insert(2, 2, 1);
    assert_eq!(cache.len(), 1);
    assert_eq!(cache.get(&1, 1), None);
    assert_eq!(cache.get(&2, 1), Some(&2));
}

#[test]
fn keys_are_told_apart_by_what_they_hold() {
    assert!("abc".to_string().same_key(&"abc".to_string()));
    assert!(!"abc".to_string().same_key(&"abd".to_string()));
    assert!(!"abc".to_string().same_key(&"ab".to_string()));
    assert!(5u64.same_key(&5));
    assert!(!5u64.same_key(&6));
}
