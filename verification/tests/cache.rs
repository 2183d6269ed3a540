use payme_backend::cache::CacheEntry;
use payme_backend::cache::CacheKey;
use payme_backend::cache::CacheManager;
use payme_backend::cache::LruCache;

const SEC: u64 = 1_000_000_000;

fn key(name: &str) -> String {
    name.to_string()
}

#[test]
fn entry_starts_unread() {
    let entry = CacheEntry::new(7u32, Some(10), 100);
    assert_eq!(*entry.value(), 7);
    assert_eq!(entry.created_at(), 100);
    assert_eq!(entry.last_accessed(), 100);
    assert_eq!(entry.access_count(), 0);
    assert_eq!(entry.ttl(), Some(10));
}

#[test]
fn entry_expires_strictly_after_its_ttl() {
    let entry = CacheEntry::new("v", Some(10), 100);
    assert!(!entry.is_expired(100));
    assert!(!entry.is_expired(110));
    assert!(entry.is_expired(111));
    assert!(entry.is_expired(u64::MAX));
}

#[test]
fn entry_is_live_before_its_own_creation_time() {
    let entry = CacheEntry::new("v", Some(0), 100);
    assert!(!entry.is_expired(0));
    assert!(!entry.is_expired(100));
    assert!(entry.is_expired(101));
}

#[test]
fn entry_without_ttl_never_expires() {
    let entry = CacheEntry::new(1u8, None, 0);
    assert!(!entry.is_expired(0));
    assert!(!entry.is_expired(u64::MAX));
}

#[test]
fn entry_with_largest_ttl_never_expires() {
    let entry = CacheEntry::new(1u8, Some(u64::MAX), 0);
    assert!(!entry.is_expired(u64::MAX));
}

#[test]
fn access_counts_and_remembers_the_latest_read() {
    let mut entry = CacheEntry::new(1u8, None, 100);
    entry.access(120);
    assert_eq!(entry.last_accessed(), 120);
    assert_eq!(entry.access_count(), 1);
    entry.access(90);
    assert_eq!(entry.last_accessed(), 120);
    assert_eq!(entry.access_count(), 2);
    assert_eq!(entry.created_at(), 100);
    assert!(entry.last_accessed() >= entry.created_at());
}

#[test]
fn string_and_integer_keys_compare_by_content() {
    assert!(key("a").same_key(&key("a")));
    assert!(!key("a").same_key(&key("b")));
    assert!(!key("a").same_key(&key("")));
    assert!(5u64.same_key(&5u64));
    assert!(!5u64.same_key(&6u64));
    assert!((-5i64).same_key(&-5i64));
    assert!(!(-5i64).same_key(&5i64));
}

#[test]
fn new_cache_is_empty() {
    let cache: LruCache<String, i32> = LruCache::new(3, Some(SEC));
    assert_eq!(cache.capacity(), 3);
    assert_eq!(cache.len(), 0);
}

#[test]
fn third_put_into_cache_of_two_evicts_the_first() {
    let mut cache: LruCache<String, i32> = LruCache::new(2, None);
    cache.put_at(key("A"), 1, 0);
    cache.put_at(key("B"), 2, 1);
    cache.put_at(key("C"), 3, 2);
    assert_eq!(cache.get_at(&key("A"), 3), None);
    assert_eq!(cache.get_at(&key("B"), 3), Some(2));
    assert_eq!(cache.get_at(&key("C"), 3), Some(3));
    assert_eq!(cache.len(), 2);
}

#[test]
fn third_put_on_the_clock_evicts_the_first() {
    let mut cache: LruCache<String, i32> = LruCache::new(2, None);
    cache.put(key("A"), 1);
    cache.put(key("B"), 2);
    cache.put(key("C"), 3);
    assert_eq!(cache.get(&key("A")), None);
    assert_eq!(cache.get(&key("B")), Some(2));
    assert_eq!(cache.get(&key("C")), Some(3));
}

#[test]
fn count_never_exceeds_capacity() {
    let mut cache: LruCache<u64, u64> = LruCache::new(4, None);
    let mut i: u64 = 0;
    while i < 50 {
        cache.put_at(i % 13, i, i);
        assert!(cache.len() <= 4);
        i += 1;
    }
    assert_eq!(cache.len(), 4);
}

#[test]
fn a_read_saves_an_entry_from_eviction() {
    let mut cache: LruCache<String, i32> = LruCache::new(2, None);
    cache.put_at(key("A"), 1, 0);
    cache.put_at(key("B"), 2, 1);
    assert_eq!(cache.get_at(&key("A"), 2), Some(1));
    cache.put_at(key("C"), 3, 3);
    assert_eq!(cache.get_at(&key("B"), 4), None);
    assert_eq!(cache.get_at(&key("A"), 4), Some(1));
    assert_eq!(cache.get_at(&key("C"), 4), Some(3));
}

#[test]
fn a_rewrite_saves_an_entry_from_eviction() {
    let mut cache: LruCache<String, i32> = LruCache::new(2, None);
    cache.put_at(key("A"), 1, 0);
    cache.put_at(key("B"), 2, 1);
    cache.put_at(key("A"), 10, 2);
    assert_eq!(cache.len(), 2);
    cache.put_at(key("C"), 3, 3);
    assert_eq!(cache.get_at(&key("B"), 4), None);
    assert_eq!(cache.get_at(&key("A"), 4), Some(10));
}

#[test]
fn put_then_get_returns_the_value() {
    let mut cache: LruCache<String, Vec<u8>> = LruCache::new(8, Some(5 * SEC));
    cache.put_at(key("k"), vec![1, 2, 3], 7);
    assert_eq!(cache.get_at(&key("k"), 7), Some(vec![1, 2, 3]));
    assert_eq!(cache.get_at(&key("k"), 7 + 5 * SEC), Some(vec![1, 2, 3]));
}

#[test]
fn get_past_ttl_finds_nothing_and_removes() {
    let mut cache: LruCache<String, i32> = LruCache::new(8, Some(5 * SEC));
    cache.put_at(key("k"), 1, 0);
    assert_eq!(cache.len(), 1);
    assert_eq!(cache.get_at(&key("k"), 5 * SEC + 1), None);
    assert_eq!(cache.len(), 0);
    assert_eq!(cache.get_at(&key("k"), 0), None);
    assert_eq!(cache.get_at(&key("k"), 5 * SEC + 2), None);
}

#[test]
fn put_with_ttl_overrides_the_default() {
    let mut cache: LruCache<String, i32> = LruCache::new(8, Some(5 * SEC));
    cache.put_with_ttl_at(key("short"), 1, Some(SEC), 0);
    cache.put_with_ttl_at(key("forever"), 2, None, 0);
    cache.put_at(key("default"), 3, 0);
    assert_eq!(cache.get_at(&key("short"), SEC + 1), None);
    assert_eq!(cache.get_at(&key("default"), SEC + 1), Some(3));
    assert_eq!(cache.get_at(&key("default"), 5 * SEC + 1), None);
    assert_eq!(cache.get_at(&key("forever"), u64::MAX), Some(2));
}

#[test]
fn a_rewrite_restarts_the_ttl() {
    let mut cache: LruCache<String, i32> = LruCache::new(8, Some(10));
    cache.put_at(key("k"), 1, 0);
    cache.put_at(key("k"), 2, 8);
    assert_eq!(cache.get_at(&key("k"), 15), Some(2));
    assert_eq!(cache.get_at(&key("k"), 19), None);
}

#[test]
fn a_read_does_not_restart_the_ttl() {
    let mut cache: LruCache<String, i32> = LruCache::new(8, Some(10));
    cache.put_at(key("k"), 1, 0);
    assert_eq!(cache.get_at(&key("k"), 9), Some(1));
    assert_eq!(cache.get_at(&key("k"), 11), None);
}

#[test]
fn eviction_ignores_ttl() {
    let mut cache: LruCache<String, i32> = LruCache::new(2, None);
    cache.put_with_ttl_at(key("old"), 1, None, 0);
    cache.put_with_ttl_at(key("brief"), 2, Some(1), 1);
    cache.put_with_ttl_at(key("new"), 3, None, 100);
    assert_eq!(cache.get_at(&key("old"), 100), None);
    assert_eq!(cache.len(), 2);
    assert_eq!(cache.get_at(&key("brief"), 100), None);
    assert_eq!(cache.len(), 1);
}

#[test]
fn remove_takes_the_entry_out() {
    let mut cache: LruCache<String, i32> = LruCache::new(2, None);
    cache.put_at(key("A"), 1, 0);
    cache.put_at(key("B"), 2, 0);
    cache.remove(&key("A"));
    assert_eq!(cache.len(), 1);
    assert_eq!(cache.get_at(&key("A"), 0), None);
    cache.remove(&key("A"));
    cache.remove(&key("never"));
    assert_eq!(cache.len(), 1);
    cache.put_at(key("C"), 3, 0);
    assert_eq!(cache.get_at(&key("B"), 0), Some(2));
    assert_eq!(cache.get_at(&key("C"), 0), Some(3));
}

#[test]
fn sweep_removes_only_expired_entries() {
    let mut cache: LruCache<u64, u64> = LruCache::new(8, None);
    cache.put_with_ttl_at(1, 10, Some(5), 0);
    cache.put_with_ttl_at(2, 20, Some(50), 0);
    cache.put_with_ttl_at(3, 30, None, 0);
    cache.put_with_ttl_at(4, 40, Some(5), 0);
    cache.cleanup_expired_at(6);
    assert_eq!(cache.len(), 2);
    assert_eq!(cache.get_at(&1, 0), None);
    assert_eq!(cache.get_at(&4, 0), None);
    assert_eq!(cache.get_at(&2, 6), Some(20));
    assert_eq!(cache.get_at(&3, 6), Some(30));
}

#[test]
fn sweep_keeps_the_order_of_recency() {
    let mut cache: LruCache<u64, u64> = LruCache::new(3, None);
    cache.put_with_ttl_at(1, 10, None, 0);
    cache.put_with_ttl_at(2, 20, Some(1), 0);
    cache.put_with_ttl_at(3, 30, None, 0);
    cache.cleanup_expired_at(5);
    cache.put_at(4, 40, 5);
    cache.put_at(5, 50, 5);
    assert_eq!(cache.get_at(&1, 5), None);
    assert_eq!(cache.get_at(&3, 5), Some(30));
    assert_eq!(cache.get_at(&4, 5), Some(40));
    assert_eq!(cache.get_at(&5, 5), Some(50));
}

#[test]
fn sweep_on_the_clock_keeps_entries_without_ttl() {
    let mut cache: LruCache<u64, u64> = LruCache::new(3, None);
    cache.put(1, 10);
    cache.cleanup_expired();
    assert_eq!(cache.get(&1), Some(10));
}

#[test]
fn cache_of_capacity_zero_holds_nothing() {
    let mut cache: LruCache<u64, u64> = LruCache::new(0, None);
    assert_eq!(cache.len(), 0);
    cache.put_at(1, 10, 0);
    assert_eq!(cache.len(), 0);
    assert_eq!(cache.get_at(&1, 0), None);
    cache.put_with_ttl_at(2, 20, Some(5), 0);
    cache.put(3, 30);
    assert_eq!(cache.len(), 0);
    assert_eq!(cache.get_at(&2, 0), None);
    assert_eq!(cache.get(&3), None);
    cache.remove(&1);
    cache.cleanup_expired_at(10);
    assert_eq!(cache.len(), 0);
}

#[test]
fn manager_of_capacity_zero_caches_nothing() {
    let mut manager = CacheManager::new(0, 0, 60 * SEC);
    manager.put_response_at(key("a"), vec![1], 0);
    assert_eq!(manager.get_response_at("a", 0), None);
}

#[test]
fn cache_of_capacity_one_replaces() {
    let mut cache: LruCache<u64, u64> = LruCache::new(1, None);
    cache.put_at(1, 10, 0);
    cache.put_at(2, 20, 0);
    assert_eq!(cache.len(), 1);
    assert_eq!(cache.get_at(&1, 0), None);
    assert_eq!(cache.get_at(&2, 0), Some(20));
}

#[test]
fn cache_clock_does_not_run_backwards() {
    let cache: LruCache<u64, u64> = LruCache::new(1, None);
    let first = cache.now();
    let second = cache.now();
    assert!(first <= second);
}

#[test]
fn manager_caches_responses() {
    let mut manager = CacheManager::new(2, 2, 60 * SEC);
    assert_eq!(manager.cleanup_interval(), 300 * SEC);
    assert_eq!(manager.get_response_at("anon:/a:", 0), None);
    manager.put_response_at(key("anon:/a:"), b"[1]".to_vec(), 0);
    assert_eq!(manager.get_response_at("anon:/a:", 1), Some(b"[1]".to_vec()));
    assert_eq!(manager.get_response_at("anon:/a:", 60 * SEC), Some(b"[1]".to_vec()));
    assert_eq!(manager.get_response_at("anon:/a:", 60 * SEC + 1), None);
    assert_eq!(manager.get_response_at("anon:/a:", 1), None);
}

#[test]
fn manager_evicts_by_its_response_capacity() {
    let mut manager = CacheManager::new(2, 1, 60 * SEC);
    manager.put_response_at(key("a"), vec![1], 0);
    manager.put_response_at(key("b"), vec![2], 0);
    manager.put_response_at(key("c"), vec![3], 0);
    assert_eq!(manager.get_response_at("a", 0), None);
    assert_eq!(manager.get_response_at("b", 0), Some(vec![2]));
    assert_eq!(manager.get_response_at("c", 0), Some(vec![3]));
}

#[test]
fn manager_sweep_drops_expired_responses() {
    let mut manager = CacheManager::new(4, 4, 10);
    manager.put_response_at(key("a"), vec![1], 0);
    manager.put_response_at(key("b"), vec![2], 5);
    manager.cleanup_at(11);
    assert_eq!(manager.get_response_at("a", 11), None);
    assert_eq!(manager.get_response_at("b", 11), Some(vec![2]));
}

#[test]
fn manager_on_the_clock_returns_what_was_put() {
    let mut manager = CacheManager::new(4, 4, 3600 * SEC);
    manager.put_response(key("a"), vec![9, 9]);
    manager.cleanup();
    assert_eq!(manager.get_response("a"), Some(vec![9, 9]));
    assert_eq!(manager.get_response("b"), None);
}
