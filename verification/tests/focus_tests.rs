use shadowlearn::focus::{FocusConfig, FocusManager};

const DAY: i64 = 86_400;

fn manager_with_threshold(threshold: u32) -> FocusManager {
    let mut m = FocusManager::new();
    let mut c = FocusConfig::default_config();
    c.quality_threshold = threshold;
    c.min_duration_minutes = 15;
    m.update_config(c);
    m
}

#[test]
fn test_default_focus_config() {
    let c = FocusConfig::default_config();
    assert!(c.enabled && c.auto_detect && c.block_notifications && c.block_triggers);
    assert_eq!(c.min_duration_minutes, 15);
    assert_eq!(c.quality_threshold, 70);
    assert_eq!(c.whitelist_apps, vec!["VS Code", "Blender", "Ableton"]);
    let m = FocusManager::new();
    assert_eq!(m.get_config().whitelist_apps.len(), 3);
}

#[test]
fn test_focus_score() {
    let mut m = FocusManager::new();
    // No switches, no keystrokes, no mouse: 20 + 10, plus 50 for a focus app.
    assert_eq!(m.calculate_focus_score(true), 80);
    assert_eq!(m.calculate_focus_score(false), 30);
    for _ in 0..11 {
        m.record_keyboard_activity();
    }
    assert_eq!(m.calculate_focus_score(true), 100);
    for _ in 0..5 {
        m.record_mouse_activity();
    }
    assert_eq!(m.calculate_focus_score(true), 90);
}

#[test]
fn test_focus_session_lifecycle() {
    let mut m = FocusManager::new();
    let t0 = 1_700_000_000i64;
    // A focus-worthy app starts a session.
    assert!(m.detect_focus_at("VS Code - main.rs", t0));
    let st = m.get_focus_state_at(t0 + 600);
    assert!(st.is_in_focus);
    assert_eq!(st.focus_start_time, Some(t0));
    assert_eq!(st.focus_duration_minutes, 10);
    assert_eq!(st.focus_quality_score, 70);
    assert_eq!(st.current_app, "VS Code - main.rs");
    // Notifications and triggers are held back meanwhile.
    assert!(m.should_block_notification());
    assert!(m.should_block_trigger());
    assert_eq!(m.get_focus_state_at(t0).notifications_blocked, 1);
    m.record_interruption();
    assert_eq!(m.get_focus_state_at(t0).focus_quality_score, 65);
    // Leaving for another app ends the session; it lasted 20 minutes so it is kept.
    assert!(!m.detect_focus_at("Slack", t0 + 1200));
    assert!(!m.get_focus_state_at(t0 + 1200).is_in_focus);
    let recent = m.get_recent_sessions(10);
    assert_eq!(recent.len(), 1);
    assert_eq!(recent[0].duration_minutes, 20);
    assert_eq!(recent[0].notifications_blocked, 1);
    assert_eq!(recent[0].interruptions, 1);
    assert_eq!(recent[0].id, format!("focus_{}", t0));
    assert!(!m.should_block_notification());
}

#[test]
fn test_short_sessions_are_not_kept() {
    let mut m = manager_with_threshold(70);
    let t0 = 1_000_000i64;
    assert!(m.detect_focus_at("Blender", t0));
    assert!(!m.detect_focus_at("Mail", t0 + 60));
    assert_eq!(m.get_recent_sessions(5).len(), 0);
}

#[test]
fn test_detection_off() {
    let mut m = FocusManager::new();
    let mut c = FocusConfig::default_config();
    c.auto_detect = false;
    m.update_config(c);
    assert!(!m.detect_focus_at("VS Code", 10));
    assert!(!m.get_focus_state_at(10).is_in_focus);
}

#[test]
fn test_focus_stats_and_streak() {
    // Application switches add up, so later sessions score 60.
    let mut m = manager_with_threshold(60);
    let today = 20_000 * DAY + 3_600;
    // Sessions of 30 minutes two days ago, yesterday and today.
    for start in [today - 2 * DAY, today - DAY, today] {
        assert!(m.detect_focus_at("Ableton", start));
        assert!(!m.detect_focus_at("Mail", start + 1800));
    }
    let st = m.get_stats_at(today + 2000);
    assert_eq!(st.total_sessions, 3);
    assert_eq!(st.total_focus_time_minutes, 90);
    assert_eq!(st.average_session_duration, 30);
    assert_eq!(st.best_session_duration, 30);
    assert_eq!(st.current_streak_days, 3);
    // Two days later the run is broken.
    assert_eq!(m.get_stats_at(today + 2 * DAY).current_streak_days, 0);
    let empty = FocusManager::new().get_stats_at(today);
    assert_eq!(empty.total_sessions, 0);
    assert_eq!(empty.average_session_duration, 0);
    assert_eq!(empty.current_streak_days, 0);
}

#[test]
fn test_recent_sessions_newest_first() {
    let mut m = manager_with_threshold(60);
    for k in 0..3i64 {
        let start = 1_000_000 + k * 10_000;
        m.detect_focus_at("VS Code", start);
        m.detect_focus_at("Mail", start + 60 * (20 + k));
    }
    let r = m.get_recent_sessions(2);
    assert_eq!(r.len(), 2);
    assert_eq!(r[0].duration_minutes, 22);
    assert_eq!(r[1].duration_minutes, 21);
}
