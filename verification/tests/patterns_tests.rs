use std::collections::HashMap;

use shadowlearn::patterns::{
    generate_automation_suggestion, generate_reasoning, generate_task_name, RepetitionWindow, SequenceTracker,
    count_sequence_occurrences, extract_tags, find_partial_match, generate_pattern_name, recent_signatures,
    sequences_match, unique_apps, window_pattern, ActionSignature, ActionType, UserAction,
};

fn sig(app: &str, t: ActionType) -> ActionSignature {
    ActionSignature { app_name: app.to_string(), action_type: t, window_pattern: None }
}

fn action(app: &str, t: ActionType, title: Option<&str>) -> UserAction {
    UserAction {
        app_name: app.to_string(),
        action_type: t,
        window_title: title.map(|s| s.to_string()),
        timestamp: 0,
        context: HashMap::new(),
    }
}

#[test]
fn test_window_patterns() {
    assert_eq!(window_pattern("main.rs"), "*.rs");
    assert_eq!(window_pattern("archive.tar.gz"), "*.gz");
    assert_eq!(window_pattern("Terminal"), "Terminal");
    assert_eq!(window_pattern(""), "");
    let s = ActionSignature::from_action(&action("Code", ActionType::FileSave, Some("lib.rs — project")));
    assert_eq!(s.window_pattern.as_deref(), Some("*.rs — project"));
    assert_eq!(s.action_type_str(), "save file");
    let none = ActionSignature::from_action(&action("Code", ActionType::Custom("build".to_string()), None));
    assert!(none.window_pattern.is_none());
    assert_eq!(none.action_type_str(), "build");
}

#[test]
fn test_sequences_match() {
    let a = vec![sig("VS Code", ActionType::AppSwitch), sig("Terminal", ActionType::Command)];
    let mut b = a.clone();
    b[0].window_pattern = Some("*.rs".to_string());
    assert!(sequences_match(&a, &b));
    assert!(!sequences_match(&a, &a[..1]));
    let c = vec![sig("VS Code", ActionType::AppSwitch), sig("Terminal", ActionType::Paste)];
    assert!(!sequences_match(&a, &c));
    assert!(ActionType::Custom("x".to_string()).same_as(&ActionType::Custom("x".to_string())));
    assert!(!ActionType::Custom("x".to_string()).same_as(&ActionType::Copy));
}

#[test]
fn test_partial_match() {
    let pattern = vec![
        sig("VS Code", ActionType::AppSwitch),
        sig("Terminal", ActionType::AppSwitch),
        sig("Browser", ActionType::AppSwitch),
    ];
    let recent = vec![sig("Slack", ActionType::Click), sig("VS Code", ActionType::AppSwitch)];
    assert_eq!(find_partial_match(&pattern, &recent), Some(0));
    let recent2 = vec![sig("VS Code", ActionType::AppSwitch), sig("Terminal", ActionType::AppSwitch)];
    assert_eq!(find_partial_match(&pattern, &recent2), Some(1));
    // The whole pattern is never a partial match.
    assert_eq!(find_partial_match(&pattern[..1], &recent), None);
    assert_eq!(find_partial_match(&pattern, &[]), None);
    assert_eq!(find_partial_match(&pattern, &[sig("Mail", ActionType::Click)]), None);
}

#[test]
fn test_count_occurrences() {
    let h = vec![
        sig("A", ActionType::Copy),
        sig("B", ActionType::Paste),
        sig("A", ActionType::Copy),
        sig("B", ActionType::Paste),
        sig("A", ActionType::Copy),
    ];
    let s = vec![sig("A", ActionType::Copy), sig("B", ActionType::Paste)];
    assert_eq!(count_sequence_occurrences(&h, &s), 2);
    let overlap = vec![sig("A", ActionType::Copy), sig("B", ActionType::Paste), sig("A", ActionType::Copy)];
    assert_eq!(count_sequence_occurrences(&h, &overlap), 2);
    assert_eq!(count_sequence_occurrences(&h[..1], &s), 0);
}

#[test]
fn test_recent_signatures() {
    let actions = vec![
        action("A", ActionType::Click, None),
        action("B", ActionType::Typing, Some("notes.txt")),
        action("C", ActionType::Scroll, None),
    ];
    let last2 = recent_signatures(&actions, 2);
    assert_eq!(last2.len(), 2);
    assert_eq!(last2[0].app_name, "B");
    assert_eq!(last2[0].window_pattern.as_deref(), Some("*.txt"));
    assert_eq!(last2[1].app_name, "C");
    assert_eq!(recent_signatures(&actions, 10).len(), 3);
}

#[test]
fn test_pattern_names_and_tags() {
    let seq = vec![
        sig("VS Code", ActionType::FileOpen),
        sig("Terminal", ActionType::Command),
        sig("VS Code", ActionType::Copy),
    ];
    assert_eq!(unique_apps(&seq), vec!["VS Code", "Terminal"]);
    assert_eq!(generate_pattern_name(&seq), "VS Code → Terminal workflow");
    assert_eq!(extract_tags(&seq), vec!["VS Code", "Terminal", "file-operations", "clipboard"]);
    assert_eq!(generate_pattern_name(&[]), "Unknown Pattern");
    assert_eq!(generate_pattern_name(&seq[..1]), "VS Code workflow");
    let many = vec![
        sig("A", ActionType::Click),
        sig("B", ActionType::Click),
        sig("C", ActionType::Click),
        sig("D", ActionType::Click),
        sig("A", ActionType::Click),
    ];
    assert_eq!(generate_pattern_name(&many), "Multi-app workflow (5)");
    assert_eq!(generate_pattern_name(&many[..3]), "A → B → C workflow");
    assert_eq!(extract_tags(&many[..2]), vec!["A", "B"]);
}

fn timed(app: &str, t: ActionType, ts: i64) -> UserAction {
    UserAction { app_name: app.to_string(), action_type: t, window_title: None, timestamp: ts, context: HashMap::new() }
}

#[test]
fn test_sequence_tracker_confirms_repeated_sequences() {
    let mut tracker = SequenceTracker::new();
    let mut confirmed_lengths = Vec::new();
    for round in 0..5 {
        for app in ["VS Code", "Terminal", "VS Code"] {
            let c = tracker.record_action(&timed(app, ActionType::AppSwitch, round * 10));
            for (seq, count) in c {
                assert!(count >= 3);
                confirmed_lengths.push(seq.len());
            }
        }
    }
    assert!(!confirmed_lengths.is_empty(), "a repeated workflow is confirmed");
    assert!(confirmed_lengths.iter().all(|&l| (2..=5).contains(&l)));
    assert_eq!(tracker.history_len(), 15);
    assert!(tracker.sequence_count() > 0);
}

#[test]
fn test_sequence_tracker_counts_suffixes() {
    let mut t = SequenceTracker::new();
    assert!(t.record_action(&timed("A", ActionType::Copy, 0)).is_empty());
    assert!(t.record_action(&timed("B", ActionType::Paste, 1)).is_empty());
    assert_eq!(t.sequence_count(), 1);
    assert!(t.record_action(&timed("A", ActionType::Copy, 2)).is_empty());
    // [B,A] and [A,B,A] are new.
    assert_eq!(t.sequence_count(), 3);
    assert!(t.record_action(&timed("B", ActionType::Paste, 3)).is_empty());
    // [A,B] seen twice now.
    let c = t.record_action(&timed("A", ActionType::Copy, 4));
    assert!(c.is_empty());
    let c = t.record_action(&timed("B", ActionType::Paste, 5));
    assert_eq!(c.len(), 1);
    assert_eq!(c[0].0.len(), 2);
    assert_eq!(c[0].1, 3);
    let ab = vec![sig("A", ActionType::Copy), sig("B", ActionType::Paste)];
    assert_eq!(t.window_durations(&ab), vec![1, 1, 1]);
}

#[test]
fn test_repetition_window() {
    let mut w = RepetitionWindow::new();
    let now = 1_000_000i64;
    let mut reported = 0;
    for k in 0..5 {
        w.record_action_at(&timed("VS Code", ActionType::Copy, now + k), now + k);
        let tasks = w.record_action_at(&timed("Browser", ActionType::Paste, now + k), now + k);
        reported += tasks.len();
        for (seq, count) in &tasks {
            assert!(*count >= 3);
            assert!(seq.len() >= 2 && seq.len() <= 10);
        }
    }
    assert!(reported > 0);
    assert_eq!(w.len(), 10);
    // A day later the old actions are forgotten.
    w.record_action_at(&timed("Mail", ActionType::Click, now + 200_000), now + 200_000);
    assert_eq!(w.len(), 1);
}

#[test]
fn test_task_names_and_suggestions() {
    let copy_paste = vec![sig("VS Code", ActionType::Copy), sig("Browser", ActionType::Paste)];
    assert_eq!(generate_task_name(&copy_paste), "Copying across 2 apps");
    let saves = vec![sig("Code", ActionType::FileSave), sig("Code", ActionType::FileSave), sig("Code", ActionType::Copy)];
    assert_eq!(generate_task_name(&saves), "Saving files in Code");
    assert_eq!(generate_task_name(&[]), "Unknown Task");
    assert_eq!(generate_automation_suggestion(&copy_paste), "Consider using clipboard management tools or macros");
    assert_eq!(
        generate_automation_suggestion(&saves),
        "Consider using a script to automate copying data between files"
    );
    let clicks = vec![sig("A", ActionType::Click), sig("B", ActionType::Click)];
    assert_eq!(generate_automation_suggestion(&clicks), "Consider using workflow automation tools like Zapier or n8n");
    assert_eq!(
        generate_automation_suggestion(&clicks[..1]),
        "Consider using keyboard shortcuts or app-specific automation"
    );
    assert_eq!(generate_reasoning("Test Workflow", 10, 0), "Based on 'Test Workflow' pattern (seen 10 times)");
    assert_eq!(
        generate_reasoning("Test Workflow", 10, 2),
        "Based on 'Test Workflow' pattern (seen 10 times, 2 alternatives)"
    );
}
