use shadowlearn::adaptive::{AdaptivePromptEngine, PromptCache};

#[test]
fn prompt_cache_hit_and_miss() {
    let mut cache = PromptCache::new();
    assert_eq!(cache.get_at("k", 1_000), None);
    assert_eq!(cache.miss_count(), 1);
    cache.put_at("k", "prompt".to_string(), 1_000);
    assert_eq!(cache.get_at("k", 2_000), Some("prompt".to_string()));
    assert_eq!(cache.hit_count(), 1);
    // Ten minutes later the prompt has expired and is purged.
    assert_eq!(cache.get_at("k", 601_000), None);
    assert_eq!(cache.len(), 0);
    assert_eq!(cache.miss_count(), 2);
}

#[test]
fn prompt_cache_replaces_same_key() {
    let mut cache = PromptCache::new();
    cache.put_at("k", "one".to_string(), 10);
    cache.put_at("k", "two".to_string(), 20);
    assert_eq!(cache.len(), 1);
    assert_eq!(cache.get_at("k", 30), Some("two".to_string()));
}

#[test]
fn prompt_cache_clear() {
    let mut cache = PromptCache::new();
    cache.put("a", "x".to_string());
    assert_eq!(cache.get("a"), Some("x".to_string()));
    cache.clear();
    assert_eq!(cache.len(), 0);
    assert_eq!(cache.hit_count(), 0);
    assert_eq!(cache.miss_count(), 0);
}

#[test]
fn engine_cache_key_and_clear() {
    assert_eq!(AdaptivePromptEngine::cache_key("c1", "debugging", "code"), "c1:debugging:code");
    let mut engine = AdaptivePromptEngine::new();
    engine.cache.put_at("c1:debugging:code", "p".to_string(), 5);
    engine.clear_cache();
    assert_eq!(engine.cache.len(), 0);
}

#[test]
fn prompt_cache_stats_counts() {
    let mut engine = AdaptivePromptEngine::new();
    assert_eq!(engine.cache.get_at("k", 1), None);
    engine.cache.put_at("k", "p".to_string(), 1);
    assert_eq!(engine.cache.get_at("k", 2), Some("p".to_string()));
    assert_eq!(engine.cache.get_at("k", 3), Some("p".to_string()));
    let s = engine.get_cache_stats();
    assert_eq!(s.hit_count, 2);
    assert_eq!(s.miss_count, 1);
    assert_eq!(s.total_requests, 3);
}
