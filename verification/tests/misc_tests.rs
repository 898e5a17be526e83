use shadowlearn::adaptive::PromptStyle;
use shadowlearn::context::{context_preview, xdotool_app, xdotool_pid, ActiveApp, ClipboardMonitor, Context, MAX_CLIPBOARD_LENGTH};
use shadowlearn::crypto::{keychain_status, split_encrypted, KeyManagerError};
use shadowlearn::flow::{calculate_confidence, detect_state, flow_state_of};
use shadowlearn::learning::{count_outcomes, FeedbackMetrics, FeedbackOutcome, Outcome, TrustRateLimiter};
use shadowlearn::opportunity::mock_opportunity;
use shadowlearn::pause::{PauseManager, PauseState};
use shadowlearn::text::parse_u32;

fn context(name: &str, idle_ms: u64) -> Context {
    Context {
        id: "c".to_string(),
        app: ActiveApp {
            bundle_id: "b".to_string(),
            name: name.to_string(),
            window_title: "w".to_string(),
            pid: 1,
            timestamp: 0,
            tcc_status: None,
        },
        clipboard: None,
        idle_ms,
        timestamp: 0,
        capture_duration_ms: 0,
    }
}

#[test]
fn test_pause_manager() {
    let mut manager = PauseManager::new();
    assert!(!manager.is_paused());

    manager.set_pause_state(true, Some(30));
    assert!(manager.is_paused());

    manager.set_pause_state(false, None);
    assert!(!manager.is_paused());
}

#[test]
fn test_timed_pause_ends() {
    let mut m = PauseManager::new();
    m.set_pause_state_at(true, Some(30), 1_000);
    assert!(m.is_paused_at(1_000 + 30 * 60_000));
    assert!(!m.is_paused_at(1_001 + 30 * 60_000));
    assert_eq!(
        m.get_pause_state_at(2_000),
        PauseState { active: true, duration_minutes: Some(30), paused_until_ms: Some(1_000 + 1_800_000) }
    );
    assert_eq!(
        m.get_pause_state_at(i64::MAX),
        PauseState { active: false, duration_minutes: None, paused_until_ms: None }
    );
    m.set_pause_state_at(true, None, 5);
    assert!(m.is_paused_at(i64::MAX));
}

#[test]
fn test_flow_state() {
    assert_eq!(detect_state(&context("Code", 1_000)), "deep");
    assert_eq!(detect_state(&context("", 1_000)), "normal");
    assert_eq!(detect_state(&context("Code", 30_000)), "normal");
    assert_eq!(detect_state(&context("Code", 30_001)), "blocked");
    assert_eq!(calculate_confidence(&context("Code", 4_999)), 90);
    assert_eq!(calculate_confidence(&context("Code", 60_001)), 95);
    assert_eq!(calculate_confidence(&context("Code", 60_000)), 60);
    let d = flow_state_of(&context("Code", 45_000));
    assert_eq!(d.flow_state, "blocked");
    assert_eq!(d.confidence_percent, 60);
    assert!(d.typing_speed.is_none() && d.focus_score.is_none());
}

#[test]
fn test_mock_opportunities() {
    let o = mock_opportunity("refacto", 1_700_000_000).unwrap();
    assert_eq!(o.id, "mock_refacto_1700000000");
    assert_eq!(o.title, "Code répété détecté");
    assert_eq!(o.context.app, "VS Code");
    assert_eq!(o.context.line, 42);
    assert_eq!(o.confidence_percent, 85);
    assert_eq!(o.status, "pending");
    assert_eq!(o.actions.len(), 3);
    assert_eq!(o.actions[0].id, "discuss");
    let tip = mock_opportunity("tip", -5).unwrap();
    assert_eq!(tip.id, "mock_tip_-5");
    assert_eq!(tip.actions.len(), 2);
    assert_eq!(tip.actions[0].label, "Voir");
    assert!(tip.context.code_snippet.is_none());
    assert_eq!(mock_opportunity("debug", 0).unwrap().confidence_percent, 92);
    assert_eq!(mock_opportunity("learn", 0).unwrap().context.file, "src/hooks/useCustomHook.ts");
    assert_eq!(mock_opportunity("other", 0).unwrap_err(), "Unknown opportunity type: other");
}

#[test]
fn test_parse_u32() {
    assert_eq!(parse_u32("42"), Some(42));
    assert_eq!(parse_u32("+7"), Some(7));
    assert_eq!(parse_u32("4294967295"), Some(u32::MAX));
    assert_eq!(parse_u32("4294967296"), None);
    assert_eq!(parse_u32(""), None);
    assert_eq!(parse_u32("+"), None);
    assert_eq!(parse_u32("-1"), None);
    assert_eq!(parse_u32("12a"), None);
    for s in ["0", "007", "123456", "99999999999", " 1"] {
        assert_eq!(parse_u32(s), s.parse::<u32>().ok());
    }
}

#[test]
fn test_xdotool_parsing() {
    assert_eq!(xdotool_pid(" 1234\n"), 1234);
    assert_eq!(xdotool_pid("oops"), 0);
    let app = xdotool_app("73400327\n", "  main.rs - Code \n", 1234, Some("code\n"), 99).unwrap();
    assert_eq!(app.bundle_id, "linux.73400327");
    assert_eq!(app.window_title, "main.rs - Code");
    assert_eq!(app.name, "code");
    assert_eq!(app.pid, 1234);
    assert_eq!(app.timestamp, 99);
    assert_eq!(xdotool_app("1", "t", 5, None, 0).unwrap().name, "Unknown");
    // No process id (the output was not a number): no application.
    let no_pid = xdotool_app("1", "t", xdotool_pid("oops"), Some("x"), 0).unwrap_err();
    assert_eq!(no_pid.message(), "Linux detection error: xdotool getwindowpid returned no process id");
    let no_name = xdotool_app("1", "t", 5, Some("  \n"), 0).unwrap_err();
    assert_eq!(no_name.message(), "Linux detection error: the process name is empty");
}

#[test]
fn test_clipboard_reports_new_texts_only() {
    let mut t = ClipboardMonitor::new_at(0);
    assert_eq!(t.get_recent_content_at(Some("hello".to_string()), 5), Some("hello".to_string()));
    assert_eq!(t.get_recent_content_at(Some("hello".to_string()), 6), None);
    assert_eq!(t.get_recent_content_at(None, 7), None);
    assert_eq!(t.get_recent_content_at(Some("a".repeat(MAX_CLIPBOARD_LENGTH + 1)), 8), None);
    assert_eq!(t.get_recent_content_at(Some("a".repeat(MAX_CLIPBOARD_LENGTH)), 9).map(|s| s.len()), Some(MAX_CLIPBOARD_LENGTH));
    assert_eq!(t.get_recent_content(Some("world".to_string())), Some("world".to_string()));
}

#[test]
fn test_context_preview() {
    let p = context_preview(&context("Code", 59_999));
    assert_eq!(p.app_name, "Code");
    assert_eq!(p.window_title, "w");
    assert_eq!(p.session_duration_minutes, 10);
    assert_eq!(p.domain.as_deref(), Some("code"));
    assert_eq!(context_preview(&context("Code", 60_000)).session_duration_minutes, 0);
}

#[test]
fn test_key_manager_errors() {
    assert_eq!(KeyManagerError::DecryptionFailed("bad".to_string()).message(), "Decryption failed: bad");
    assert_eq!(KeyManagerError::KeyringUnavailable("x".to_string()).message(), "Keyring not available: x");
    assert!(keychain_status(true).available);
    assert!(keychain_status(false).message.starts_with("⚠️"));
    match split_encrypted(&[1, 2, 3]) {
        Err(KeyManagerError::DecryptionFailed(m)) => assert_eq!(m, "Encrypted data too short"),
        _ => panic!("short blobs are refused"),
    }
    let blob: Vec<u8> = (0u8..20).collect();
    let (nonce, body) = split_encrypted(&blob).unwrap();
    assert_eq!(nonce, (0u8..12).collect::<Vec<u8>>());
    assert_eq!(body, (12u8..20).collect::<Vec<u8>>());
}

#[test]
fn test_small_kinds() {
    assert_eq!(FeedbackOutcome::from_helpful(true), FeedbackOutcome::Positive);
    assert_eq!(FeedbackOutcome::from_helpful(false), FeedbackOutcome::Negative);
    assert_eq!(PromptStyle::SafeCreative.name(), "SafeCreative");
}

#[test]
fn test_feedback_metrics_counts() {
    let mut m = FeedbackMetrics::new();
    m.record_feedback(FeedbackOutcome::Positive);
    m.record_feedback(FeedbackOutcome::Positive);
    m.record_feedback(FeedbackOutcome::Negative);
    m.record_feedback(FeedbackOutcome::Neutral);
    assert_eq!(m.total_feedback, 4);
    assert_eq!(m.positive_count, 2);
    assert_eq!(m.negative_count, 1);
    assert_eq!(m.neutral_count, 1);
    assert_eq!(m.positive_count + m.negative_count + m.neutral_count, m.total_feedback);
}

#[test]
fn test_count_outcomes_kinds() {
    let outcomes = vec![
        Outcome::Used { helpful: true, reverted: false, time_to_flow: None },
        Outcome::Used { helpful: false, reverted: true, time_to_flow: Some(std::time::Duration::from_secs(3)) },
        Outcome::Used { helpful: true, reverted: true, time_to_flow: None },
        Outcome::Ignored,
        Outcome::Dismissed,
        Outcome::Ignored,
    ];
    let c = count_outcomes(&outcomes);
    assert_eq!(c.used_count, 3);
    assert_eq!(c.helpful_count, 2);
    assert_eq!(c.reverted_count, 2);
    assert_eq!(c.ignored_count, 2);
    assert_eq!(c.dismissed_count, 1);
    assert_eq!(count_outcomes(&[]).used_count, 0);
}

#[test]
fn test_trust_rate_limiting() {
    let mut l = TrustRateLimiter::default_limits();
    for i in 0..15u64 {
        let admitted = l.admit_at(1_000 + i);
        // Refused after 10 within the minute.
        assert_eq!(admitted, i < 10, "update {}", i);
    }
    // A minute after the first updates they have left the window.
    assert!(l.admit_at(1_000 + 60_000 + 5));
    let mut small = TrustRateLimiter::new(100, 2);
    assert!(small.admit_at(10));
    assert!(small.admit_at(20));
    assert!(!small.admit_at(30));
    assert!(small.admit_at(115));
}
