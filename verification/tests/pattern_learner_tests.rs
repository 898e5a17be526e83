use std::collections::HashMap;
use std::hash::{Hash, Hasher};

use shadowlearn::pattern_learner::{generate_pattern_id, PatternLearner};
use shadowlearn::patterns::{ActionSignature, ActionType, UserAction};

fn create_test_action(app: &str, action_type: ActionType) -> UserAction {
    UserAction {
        app_name: app.to_string(),
        action_type,
        window_title: None,
        timestamp: 1_700_000_000,
        context: HashMap::new(),
    }
}

fn timed(app: &str, action_type: ActionType, ts: i64) -> UserAction {
    UserAction { app_name: app.to_string(), action_type, window_title: None, timestamp: ts, context: HashMap::new() }
}

#[test]
fn test_pattern_learning() {
    let mut learner = PatternLearner::new();

    // Simulate repetitive workflow: VS Code → Terminal → VS Code
    for _ in 0..5 {
        learner.record_action(&create_test_action("VS Code", ActionType::AppSwitch));
        learner.record_action(&create_test_action("Terminal", ActionType::AppSwitch));
        learner.record_action(&create_test_action("VS Code", ActionType::AppSwitch));
    }

    let patterns = learner.get_patterns();
    assert!(!patterns.is_empty(), "Should discover at least one pattern");

    let stats = learner.get_stats();
    assert!(stats.total_patterns_discovered > 0);
}

#[test]
fn test_pattern_id_is_hash_of_sequence() {
    let seq = vec![
        ActionSignature { app_name: "VS Code".to_string(), action_type: ActionType::Copy, window_pattern: None },
        ActionSignature { app_name: "Browser".to_string(), action_type: ActionType::Paste, window_pattern: Some("*.rs".to_string()) },
    ];
    let mut hasher = std::collections::hash_map::DefaultHasher::new();
    seq.as_slice().hash(&mut hasher);
    assert_eq!(generate_pattern_id(&seq), format!("pattern_{:x}", hasher.finish()));
}

#[test]
fn test_pattern_learner_promotes_and_updates() {
    let mut l = PatternLearner::new();
    // A B A B A B: "A B" reaches three occurrences at the sixth action.
    for i in 0..3i64 {
        l.record_action_at(&timed("A", ActionType::Copy, 100 + 20 * i), 1000 + i);
        l.record_action_at(&timed("B", ActionType::Paste, 110 + 20 * i), 1000 + i);
    }
    let ps = l.get_patterns();
    let ab = ps.iter().find(|p| p.sequence.len() == 2 && p.sequence[0].app_name == "A").expect("A B pattern");
    assert_eq!(ab.occurrences, 3);
    assert_eq!(ab.name, "A → B workflow");
    assert_eq!(ab.tags, vec!["A".to_string(), "B".to_string(), "clipboard".to_string()]);
    assert_eq!(ab.durations_secs, vec![10i128, 10, 10]);
    assert_eq!(ab.created_at, 1002);

    // One more round: the known pattern takes the new count and time.
    l.record_action_at(&timed("A", ActionType::Copy, 160), 2000);
    l.record_action_at(&timed("B", ActionType::Paste, 170), 2001);
    let ps = l.get_patterns();
    let ab = ps.iter().find(|p| p.sequence.len() == 2 && p.sequence[0].app_name == "A").unwrap();
    assert_eq!(ab.occurrences, 4);
    assert_eq!(ab.last_seen, 2001);
    assert_eq!(ab.created_at, 1002);
    // Sorted by occurrences, most first.
    for w in ps.windows(2) {
        assert!(w[0].occurrences >= w[1].occurrences);
    }

    let clip = l.get_patterns_by_tag("clipboard");
    assert_eq!(clip.len(), ps.len());
    assert!(l.get_patterns_by_tag("file-operations").is_empty());

    let stats = l.get_stats();
    assert_eq!(stats.total_actions_recorded, 8);
    assert_eq!(stats.total_patterns_discovered, ps.len());
}
