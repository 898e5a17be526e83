use shadowlearn::context::{activity_type_from_str, ActivityType};
use shadowlearn::features::{toggle_feature, Feature, FeatureFlags};
use shadowlearn::intent::{clean_answer, generate_cache_key, json_candidate, LLMClient, LLMProvider};
use shadowlearn::text::hex_string;
use std::hash::{Hash, Hasher};

#[test]
fn test_hex_string_values() {
    assert_eq!(hex_string(0), "0");
    assert_eq!(hex_string(255), "ff");
    assert_eq!(hex_string(0x1a2b), "1a2b");
    assert_eq!(hex_string(u64::MAX), "ffffffffffffffff");
}

#[test]
fn test_generate_cache_key_without_clipboard() {
    assert_eq!(generate_cache_key("Code", "main.rs", None), "Code|main.rs|none");
}

#[test]
fn test_generate_cache_key_hashes_clipboard() {
    let mut hasher = std::collections::hash_map::DefaultHasher::new();
    "let x = 1;".hash(&mut hasher);
    let expected = format!("Code|main.rs|{:x}", hasher.finish());
    assert_eq!(generate_cache_key("Code", "main.rs", Some("let x = 1;")), expected);
    assert_ne!(
        generate_cache_key("Code", "main.rs", Some("a")),
        generate_cache_key("Code", "main.rs", Some("b"))
    );
}

#[test]
fn test_clean_answer_drops_headings_and_blank_lines() {
    assert_eq!(clean_answer("  # Title\n{\"a\": 1}\n\n done "), "{\"a\": 1}  done");
    assert_eq!(clean_answer("\n\n"), "");
}

#[test]
fn test_json_candidate_slices_braces() {
    assert_eq!(json_candidate("xx {\"a\": {\"b\": 2}} yy"), "{\"a\": {\"b\": 2}}");
    assert_eq!(json_candidate("no json here"), "no json here");
    assert_eq!(json_candidate("only { open"), "only { open");
}

#[test]
fn test_activity_type_words() {
    assert_eq!(activity_type_from_str("Keyboard"), ActivityType::Keyboard);
    assert_eq!(activity_type_from_str("MOUSE"), ActivityType::Mouse);
    assert_eq!(activity_type_from_str("scroll"), ActivityType::Scroll);
    assert_eq!(activity_type_from_str("touch"), ActivityType::Unknown);
}

#[test]
fn test_toggle_feature_rules() {
    let mut flags = FeatureFlags::from_env(&Vec::new());
    flags.disable(Feature::IdleDetection);
    let err = toggle_feature(&mut flags, Feature::SmartTriggers, true);
    assert_eq!(err, Err("Cannot enable Smart Triggers: dependencies not satisfied".to_string()));
    assert!(!flags.is_enabled(Feature::SmartTriggers));

    assert_eq!(toggle_feature(&mut flags, Feature::IdleDetection, true), Ok(()));
    assert_eq!(toggle_feature(&mut flags, Feature::SmartTriggers, true), Ok(()));
    assert!(flags.is_enabled(Feature::SmartTriggers));

    assert_eq!(toggle_feature(&mut flags, Feature::IdleDetection, false), Ok(()));
    assert!(!flags.is_enabled(Feature::SmartTriggers));
}

#[test]
fn test_llm_client_counts_and_provider_switch() {
    let mut c = LLMClient::new(LLMProvider::Ollama, None);
    assert_eq!(c.base_url, "http://localhost:11434");
    assert_eq!(c.timeout_secs, 30);
    assert!(c.can_check_availability());
    c.record_generation(true, 120);
    c.record_generation(false, 30);
    let s = c.get_stats();
    assert_eq!(s.total_requests, 2);
    assert_eq!(s.successful_requests, 1);
    assert_eq!(s.failed_requests, 1);
    assert_eq!(s.total_response_time_ms, 150);

    c.switch_provider(LLMProvider::Anthropic, None);
    assert_eq!(c.base_url, "https://api.anthropic.com/v1");
    assert!(!c.can_check_availability());
    assert_eq!(c.get_stats().provider, LLMProvider::Ollama);
    c.reset_stats();
    assert_eq!(c.get_stats().total_requests, 0);
    assert_eq!(c.get_stats().provider, LLMProvider::Anthropic);
    c.switch_provider(LLMProvider::OpenAI, Some("k".to_string()));
    assert!(c.can_check_availability());
}
