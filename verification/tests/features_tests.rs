use shadowlearn::features::{env_bool, Feature, FeatureFlags, FeaturesState};

fn no_env() -> Vec<(String, String)> {
    Vec::new()
}

#[test]
fn test_disable_feature() {
    let mut flags = FeatureFlags::from_env(&no_env());
    flags.disable(Feature::Screenshot);
    assert!(!flags.is_enabled(Feature::Screenshot));
}

#[test]
fn test_cascade_disable_idle_to_smart_triggers() {
    let mut flags = FeatureFlags::from_env(&no_env());

    // Enable both first
    flags.enable(Feature::IdleDetection);
    flags.enable(Feature::SmartTriggers);

    // Disable idle detection
    flags.disable(Feature::IdleDetection);

    // Smart triggers should be auto-disabled
    assert!(!flags.is_enabled(Feature::IdleDetection));
    assert!(!flags.is_enabled(Feature::SmartTriggers));
}

#[test]
fn test_cannot_enable_smart_triggers_without_idle() {
    let mut flags = FeatureFlags::from_env(&no_env());

    flags.disable(Feature::IdleDetection);
    flags.enable(Feature::SmartTriggers);

    assert!(!flags.is_enabled(Feature::SmartTriggers));
}

#[test]
fn test_can_enable_check() {
    let mut flags = FeatureFlags::from_env(&no_env());

    flags.disable(Feature::IdleDetection);
    assert!(!flags.can_enable(Feature::SmartTriggers));

    flags.enable(Feature::IdleDetection);
    assert!(flags.can_enable(Feature::SmartTriggers));
}

#[test]
fn test_get_dependencies() {
    let flags = FeatureFlags::from_env(&no_env());

    let deps = flags.get_dependencies(Feature::SmartTriggers);
    assert_eq!(deps, vec![Feature::IdleDetection]);

    let no_deps = flags.get_dependencies(Feature::Screenshot);
    assert!(no_deps.is_empty());
}

#[test]
fn test_features_state() {
    let state = FeaturesState {
        idle_detection: true,
        screenshot: false,
        smart_triggers: true,
        telemetry: true,
        use_intent_gate: false,
    };

    assert_eq!(state.enabled_count(), 3);
    assert!(!state.all_enabled());
}

#[test]
fn test_env_bool_parsing() {
    assert!(env_bool(&no_env(), "NONEXISTENT", true));
    assert!(!env_bool(&no_env(), "NONEXISTENT", false));
}

fn vars(pairs: &[(&str, &str)]) -> Vec<(String, String)> {
    pairs.iter().map(|(k, v)| (k.to_string(), v.to_string())).collect()
}

#[test]
fn env_bool_reads_words_in_any_case() {
    let env = vars(&[("A", "YES"), ("B", "Off"), ("C", "1"), ("D", "0"), ("E", "maybe"), ("F", "On")]);
    assert!(env_bool(&env, "A", false));
    assert!(!env_bool(&env, "B", true));
    assert!(env_bool(&env, "C", false));
    assert!(!env_bool(&env, "D", true));
    assert!(env_bool(&env, "E", true));
    assert!(!env_bool(&env, "E", false));
    assert!(env_bool(&env, "F", false));
}

#[test]
fn from_env_defaults() {
    let flags = FeatureFlags::from_env(&no_env());
    let s = flags.get_state();
    assert!(s.idle_detection);
    assert!(!s.screenshot);
    assert!(s.smart_triggers);
    assert!(s.telemetry);
    assert!(s.use_intent_gate);
    assert_eq!(s.enabled_count(), 4);
}

#[test]
fn from_env_smart_triggers_need_idle_detection() {
    let env = vars(&[("SL_IDLE_ENABLED", "false"), ("SL_SMART_TRIGGERS_ENABLED", "true"), ("SL_SCREENSHOT_ENABLED", "on")]);
    let flags = FeatureFlags::from_env(&env);
    assert!(!flags.is_enabled(Feature::IdleDetection));
    assert!(!flags.is_enabled(Feature::SmartTriggers));
    assert!(flags.is_enabled(Feature::Screenshot));
}

#[test]
fn display_names() {
    assert_eq!(Feature::IdleDetection.display_name(), "Idle Detection");
    assert_eq!(Feature::SmartTriggers.display_name(), "Smart Triggers");
    assert_eq!(Feature::UseIntentGate.display_name(), "Intent Gate");
}

#[test]
fn disable_then_enable_restores_feature() {
    let mut flags = FeatureFlags::from_env(&no_env());
    let before = flags.get_state();
    flags.disable(Feature::Telemetry);
    flags.enable(Feature::Telemetry);
    assert_eq!(flags.get_state(), before);
}

#[test]
fn all_enabled_state() {
    let state = FeaturesState { idle_detection: true, screenshot: true, smart_triggers: true, telemetry: true, use_intent_gate: true };
    assert!(state.all_enabled());
    assert_eq!(state.enabled_count(), 5);
}
