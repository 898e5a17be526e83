use std::collections::HashMap;

use shadowlearn::patterns::{ActionSignature, ActionType, UserAction};
use shadowlearn::repetition::{generate_task_id, RepetitionDetector};

fn create_test_action(app: &str, action_type: ActionType) -> UserAction {
    UserAction {
        app_name: app.to_string(),
        action_type,
        window_title: None,
        timestamp: chrono::Utc::now().timestamp(),
        context: HashMap::new(),
    }
}

fn timed(app: &str, action_type: ActionType, ts: i64) -> UserAction {
    UserAction { app_name: app.to_string(), action_type, window_title: None, timestamp: ts, context: HashMap::new() }
}

#[test]
fn test_repetition_detection() {
    let mut detector = RepetitionDetector::new();

    // Simulate repetitive copy-paste task
    for _ in 0..5 {
        detector.record_action(&create_test_action("VS Code", ActionType::Copy));
        detector.record_action(&create_test_action("Browser", ActionType::Paste));
    }

    let tasks = detector.get_repetitive_tasks();
    assert!(!tasks.is_empty(), "Should detect at least one repetitive task");

    let stats = detector.get_stats();
    assert!(stats.total_tasks_detected > 0);
    assert!(stats.total_repetitions >= 5);
}

#[test]
fn test_repetition_tasks_ranked_and_prioritised() {
    let mut d = RepetitionDetector::new();
    let now = 1_700_000_000;
    for i in 0..6i64 {
        d.record_action_at(&timed("VS Code", ActionType::Copy, now + 2 * i), now + 2 * i);
        d.record_action_at(&timed("Browser", ActionType::Paste, now + 2 * i + 1), now + 2 * i + 1);
    }
    let tasks = d.get_repetitive_tasks();
    let cp = tasks
        .iter()
        .find(|t| t.actions.len() == 2 && t.actions[0].app_name == "VS Code")
        .expect("copy then paste");
    assert_eq!(cp.repetitions, 6);
    assert_eq!(cp.name, "Copying across 2 apps");
    assert_eq!(cp.automation_suggestion, "Consider using clipboard management tools or macros");
    assert_eq!(cp.first_seen, now + 5);
    assert_eq!(cp.last_occurrence, now + 11);

    // The copy-paste pair: min(6/20, 0.4) + 0.3 * 2/10 + 0.3 = 0.66 > 0.6, six repetitions.
    let high = d.get_high_priority_tasks();
    assert!(high.iter().any(|t| t.id == cp.id));

    let stats = d.get_stats();
    assert_eq!(stats.total_tasks_detected, tasks.len());
    assert_eq!(stats.high_priority_tasks, high.len());
    assert_eq!(stats.total_repetitions, tasks.iter().map(|t| t.repetitions).sum::<usize>());

    let sig = |app: &str, t: ActionType| ActionSignature { app_name: app.to_string(), action_type: t, window_pattern: None };
    assert_eq!(generate_task_id(&[sig("VS Code", ActionType::Copy), sig("Browser", ActionType::Paste)]), cp.id);
}

#[test]
fn test_repetition_window_forgets_after_a_day() {
    let mut d = RepetitionDetector::new();
    let t0 = 1_700_000_000;
    for i in 0..3i64 {
        d.record_action_at(&timed("A", ActionType::Copy, t0 + 2 * i), t0 + 2 * i);
        d.record_action_at(&timed("B", ActionType::Paste, t0 + 2 * i + 1), t0 + 2 * i + 1);
    }
    assert_eq!(d.get_repetitive_tasks().len(), 1);
    // Two days later the old actions are gone: nothing new is repeated.
    let later = t0 + 2 * 86_400;
    d.record_action_at(&timed("A", ActionType::Copy, later), later);
    d.record_action_at(&timed("B", ActionType::Paste, later + 1), later + 1);
    let tasks = d.get_repetitive_tasks();
    assert_eq!(tasks.len(), 1);
    assert_eq!(tasks[0].repetitions, 3);
}

#[test]
fn test_automation_potential() {
    let detector = RepetitionDetector::new();

    let copy_paste_task = vec![
        ActionSignature { app_name: "VS Code".to_string(), action_type: ActionType::Copy, window_pattern: None },
        ActionSignature { app_name: "Browser".to_string(), action_type: ActionType::Paste, window_pattern: None },
    ];

    let (num, den) = detector.calculate_automation_potential(&copy_paste_task, 10);
    assert!(2 * num > den, "Copy-paste should have high automation potential");
    // 0.4 for the repetitions, 0.06 for the length, 0.3 for the kinds.
    assert_eq!((num, den), (152, 200));
}

#[test]
fn automation_potential_is_capped_for_long_tasks() {
    let detector = RepetitionDetector::new();
    let long_task: Vec<ActionSignature> = (0..50)
        .map(|i| ActionSignature { app_name: format!("app{}", i), action_type: ActionType::Click, window_pattern: None })
        .collect();
    assert_eq!(detector.calculate_automation_potential(&long_task, 0), (5000, 5000));
    assert_eq!(detector.calculate_automation_potential(&[], 3), (0, 0));
}
