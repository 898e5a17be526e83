use shadowlearn::smart_cache::SmartCache;

#[test]
fn test_cache_creation() {
    let cache = SmartCache::new(5, 2, 30);
    assert_eq!(cache.current_interval_secs(), 5);
    assert_eq!(cache.min_interval_secs(), 2);
    assert_eq!(cache.max_interval_secs(), 30);
}

#[test]
fn test_should_analyze_new_hash() {
    let mut cache = SmartCache::default_cache();
    assert!(cache.should_analyze(123));
    assert!(cache.should_analyze(456));
    assert!(!cache.should_analyze(456));
}

#[test]
fn test_adaptive_interval_increase() {
    let mut cache = SmartCache::new(5, 2, 30);
    cache.should_analyze(100);
    assert!(!cache.should_analyze(100));
    assert!(!cache.should_analyze(100));
    assert!(!cache.should_analyze(100));
    assert_eq!(cache.current_interval_secs(), 10);
}

#[test]
fn test_adaptive_interval_decrease() {
    let mut cache = SmartCache::new(10, 2, 30);
    assert!(cache.should_analyze(1));
    assert!(cache.should_analyze(2));
    assert!(cache.should_analyze(3));
    assert!(cache.should_analyze(4));
    assert_eq!(cache.current_interval_secs(), 5);
}

#[test]
fn test_reset() {
    let mut cache = SmartCache::default_cache();
    cache.should_analyze(123);
    cache.should_analyze(456);
    assert_eq!(cache.history_len(), 2);
    cache.reset();
    assert_eq!(cache.history_len(), 0);
    assert_eq!(cache.change_count(), 0);
    assert_eq!(cache.identical_count(), 0);
}

#[test]
fn smart_cache_test_stats() {
    let mut cache = SmartCache::default_cache();
    cache.should_analyze(123);
    cache.should_analyze(456);
    let stats = cache.stats();
    assert_eq!(stats.history_size, 2);
    assert_eq!(stats.current_interval_secs, 5);
}

#[test]
fn history_is_bounded_to_ten() {
    let mut cache = SmartCache::new(5, 2, 30);
    for h in 0..25u64 {
        assert!(cache.should_analyze_at(h, 1000 + h));
    }
    assert_eq!(cache.history_len(), 10);
    // The oldest hashes were forgotten, the recent ones are remembered.
    assert!(cache.should_analyze_at(0, 2000));
    assert!(!cache.should_analyze_at(24, 2001));
}

#[test]
fn interval_capped_and_floored() {
    let mut cache = SmartCache::new(20, 2, 30);
    for _ in 0..6 {
        cache.should_analyze_at(7, 0);
    }
    assert_eq!(cache.current_interval_secs(), 30);
    let mut cache = SmartCache::new(3, 2, 30);
    for h in 0..8u64 {
        cache.should_analyze_at(h, 0);
    }
    assert_eq!(cache.adaptive_interval_secs(), 2);
    assert_eq!(cache.adaptive_interval(), std::time::Duration::from_secs(2));
}

#[test]
fn cleanup_forgets_old_hashes() {
    let mut cache = SmartCache::new(5, 2, 30);
    cache.should_analyze_at(1, 0);
    cache.should_analyze_at(2, 200_000);
    cache.should_analyze_at(3, 400_000);
    cache.cleanup_old_at(400_000);
    assert_eq!(cache.history_len(), 2);
    assert!(cache.should_analyze_at(1, 400_001));
}
