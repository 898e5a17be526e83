use shadowlearn::intent::IntentType;
use shadowlearn::intent_detector::{confidence_bucket, get_cache_ttl_ms, Intent, IntentDetector, IntentStats};

fn intent(t: IntentType, confidence_percent: u32) -> Intent {
    Intent { intent_type: t, confidence_percent, reason: "r".to_string(), detected_at_ms: 0 }
}

#[test]
fn test_cache_ttl_by_confidence() {
    assert_eq!(get_cache_ttl_ms(&intent(IntentType::Debugging, 95)), 600_000);
    assert_eq!(get_cache_ttl_ms(&intent(IntentType::Debugging, 90)), 600_000);
    assert_eq!(get_cache_ttl_ms(&intent(IntentType::Debugging, 70)), 300_000);
    assert_eq!(get_cache_ttl_ms(&intent(IntentType::Debugging, 69)), 120_000);
}

#[test]
fn test_detector_miss_store_hit_expire() {
    let mut d = IntentDetector::new();
    assert!(d.begin_detection_at("k", 1_000).is_none());
    d.record_llm_response(250);
    d.store_intent_at("k".to_string(), intent(IntentType::Learning, 95), 1_000);
    assert_eq!(d.get_cache_size(), 1);

    let hit = d.begin_detection_at("k", 1_000 + 599_999).expect("fresh intent");
    assert_eq!(hit.intent_type, IntentType::Learning);
    assert_eq!(hit.confidence_percent, 95);

    // Expired at its time to live, and when the clock is before the storing.
    assert!(d.begin_detection_at("k", 1_000 + 600_000).is_none());
    assert!(d.begin_detection_at("k", 999).is_none());
    assert!(d.begin_detection_at("other", 1_000).is_none());

    let s = d.get_stats();
    assert_eq!(s.total_requests, 5);
    assert_eq!(s.cache_hits, 1);
    assert_eq!(s.cache_misses, 4);
    assert_eq!(s.llm_calls, 1);
    assert_eq!(s.total_response_time_ms, 250);

    d.clear_cache();
    assert_eq!(d.get_cache_size(), 0);
    assert!(d.begin_detection_at("k", 1_000).is_none());
}

#[test]
fn test_detector_fallback_and_threshold() {
    let mut d = IntentDetector::new();
    let f = d.fallback_at("VS Code", "main.rs", 0, 42);
    assert_eq!(f.intent_type, IntentType::Creating);
    assert_eq!(f.confidence_percent, 30);
    assert_eq!(f.reason, "Fallback heuristic: creating");
    assert_eq!(f.detected_at_ms, 42);
    assert_eq!(d.get_stats().llm_errors, 1);

    assert!(!d.should_proceed(&f));
    assert!(d.should_proceed(&intent(IntentType::Stuck, 50)));
    assert!(!d.should_proceed(&intent(IntentType::Stuck, 49)));
}

#[test]
fn test_intent_stats_distributions() {
    assert_eq!(confidence_bucket(95), "0.9-1.0");
    assert_eq!(confidence_bucket(85), "0.8-0.9");
    assert_eq!(confidence_bucket(70), "0.7-0.8");
    assert_eq!(confidence_bucket(65), "0.6-0.7");
    assert_eq!(confidence_bucket(50), "0.5-0.6");
    assert_eq!(confidence_bucket(10), "0.0-0.5");

    let mut s = IntentStats::new();
    s.record_detection(&intent(IntentType::Debugging, 95), 100);
    s.record_detection(&intent(IntentType::Debugging, 40), 50);
    s.record_detection(&intent(IntentType::Learning, 92), 10);
    assert_eq!(s.total_detections, 3);
    assert_eq!(s.total_detection_time_ms, 160);
    assert_eq!(s.total_confidence_percent, 227);
    assert_eq!(s.high_confidence_count, 2);
    assert_eq!(s.low_confidence_count, 1);
    assert_eq!(
        s.intent_distribution,
        vec![("debugging".to_string(), 2u64), ("learning".to_string(), 1u64)]
    );
    assert_eq!(
        s.confidence_distribution,
        vec![("0.9-1.0".to_string(), 2u64), ("0.0-0.5".to_string(), 1u64)]
    );
}
