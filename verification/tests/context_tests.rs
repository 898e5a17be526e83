use shadowlearn::context::{check_tcc_status_macos, get_active_app_linux, get_active_app_linux_ewmh, get_window_title_macos, ClipboardMonitor, MAX_CLIPBOARD_LENGTH, ActiveApp, ActivityType, AppDetectionError, AppDetector, ClipboardError, ContextAggregator, ContextError, IdleDetector, TCCStatus};

fn sample_app() -> ActiveApp {
    ActiveApp {
        bundle_id: "com.test.app".to_string(),
        name: "TestApp".to_string(),
        window_title: "Test Window".to_string(),
        pid: 42,
        timestamp: 1234567890,
        tcc_status: Some(TCCStatus::Unknown),
    }
}

#[test]
fn test_app_detector_creation() {
    let detector = AppDetector::new();
    assert_eq!(detector.cache_ttl_ms(), 150);
    assert!(!detector.has_cached_app());
}

#[test]
fn test_app_detection() {
    let mut detector = AppDetector::new();
    // The system reports the active application.
    let result = detector.get_active_app(|| Ok(sample_app()));
    match result {
        Ok(app) => {
            assert!(!app.name.is_empty());
            assert!(!app.bundle_id.is_empty());
            assert!(app.pid > 0);
        }
        Err(e) => panic!("the system's answer was lost: {:?}", e),
    }
    assert!(detector.has_cached_app());
    // Headless: the system query fails, and the error is passed on.
    let mut headless = AppDetector::new();
    let failed = headless.get_active_app(|| Err(AppDetectionError::NotAvailable("no display".to_string())));
    assert!(failed.is_err());
    assert!(!headless.has_cached_app());
}

#[test]
fn test_cache_behavior() {
    let mut detector = AppDetector::new();
    if let Ok(app1) = detector.get_active_app_at(1000, || Ok(sample_app())) {
        // Within the cache lifetime the system is not asked again.
        if let Ok(app2) = detector.get_active_app_at(1100, || panic!("cache should answer")) {
            assert_eq!(app1.bundle_id, app2.bundle_id);
            assert_eq!(app1.name, app2.name);
        }
    }
}

#[test]
fn cache_expires_after_ttl() {
    let mut detector = AppDetector::new();
    detector.get_active_app_at(1000, || Ok(sample_app())).unwrap();
    let mut asked = false;
    let r = detector.get_active_app_at(1150, || {
        asked = true;
        Err(AppDetectionError::NoActiveWindow)
    });
    assert!(asked);
    assert!(r.is_err());
    // A failed query keeps the cached answer.
    assert!(detector.has_cached_app());
}

#[test]
fn error_messages() {
    assert_eq!(AppDetectionError::NoActiveWindow.message(), "No active window found");
    assert_eq!(ClipboardError::AccessError("busy".to_string()).message(), "Failed to access clipboard: busy");
    let e = ContextError::AppDetection(AppDetectionError::NoActiveWindow);
    assert_eq!(e.message(), "App detection failed: No active window found");
    assert_eq!(TCCStatus::Granted.as_str(), "granted");
    assert_eq!(TCCStatus::Denied.as_str(), "denied");
}

#[test]
fn test_idle_detector_creation() {
    let detector = IdleDetector::new();
    let idle = detector.local_idle_ms();
    assert!(idle < 60_000);
}

#[test]
fn idle_time_since_activity() {
    let mut d = IdleDetector::new_at(1000);
    assert_eq!(d.local_idle_ms_at(4000), 3000);
    d.reset_activity_at(ActivityType::Keyboard, 5000);
    assert_eq!(d.last_activity_type(), ActivityType::Keyboard);
    assert_eq!(d.local_idle_ms_at(5500), 500);
    assert_eq!(d.local_idle_ms_at(100), 0);
}

#[test]
fn test_idle_state_at() {
    let mut d = IdleDetector::new_at(1_000);
    d.reset_activity_at(ActivityType::Mouse, 2_000);
    let st = d.get_idle_state_at(5_500);
    assert_eq!(st.local_idle_ms, 3_500);
    assert_eq!(st.os_idle_ms, 3_500);
    assert_eq!(st.effective_idle_ms, 3_500);
    assert_eq!(st.last_activity_type, ActivityType::Mouse);
    // A clock before the last activity counts as no idle time.
    assert_eq!(d.get_idle_state_at(1_500).effective_idle_ms, 0);
}

#[test]
fn test_context_aggregator_capture_at() {
    let mut agg = ContextAggregator::new_at(1_000);
    let c = agg
        .capture_at(4_000, || Ok(sample_app()), Some("copied".to_string()), "ctx-1".to_string(), 7)
        .unwrap();
    assert_eq!(c.id, "ctx-1");
    assert_eq!(c.app.name, "TestApp");
    assert_eq!(c.clipboard, Some("copied".to_string()));
    assert_eq!(c.idle_ms, 3_000);
    assert_eq!(c.timestamp, 4);
    assert_eq!(c.capture_duration_ms, 7);
    assert_eq!(agg.last_capture_ms, Some(4_000));

    // The same clipboard text is not reported twice; the app comes from the cache.
    let c2 = agg
        .capture_at(4_100, || panic!("cache should answer"), Some("copied".to_string()), "ctx-2".to_string(), 1)
        .unwrap();
    assert_eq!(c2.clipboard, None);

    // An app detection error stops the capture.
    let e = agg.capture_at(9_000, || Err(AppDetectionError::NoActiveWindow), Some("new".to_string()), "ctx-3".to_string(), 1);
    assert!(matches!(e, Err(ContextError::AppDetection(AppDetectionError::NoActiveWindow))));
    assert_eq!(agg.last_capture_ms, Some(4_100));

    agg.reset_user_activity_at(ActivityType::Keyboard, 9_500);
    let st = agg.get_idle_state_at(10_000);
    assert_eq!(st.effective_idle_ms, 500);
    assert_eq!(st.last_activity_type, ActivityType::Keyboard);

    let last = agg.get_last_context_at(10_000, || Ok(sample_app()), "preview".to_string()).unwrap();
    assert_eq!(last.clipboard, None);
    assert_eq!(last.idle_ms, 500);
    assert_eq!(last.capture_duration_ms, 0);

    let p = agg.peek_at(10_050, || panic!("cache should answer")).unwrap();
    assert_eq!(p.idle_ms, 550);
    assert_eq!(p.app.name, "TestApp");
}

#[test]
fn test_clipboard_monitor_creation() {
    let mut monitor = ClipboardMonitor::new();
    // Nothing was reported yet: a failed read gives nothing.
    assert!(monitor.get_recent_content(None).is_none());
}

#[test]
fn test_clipboard_read() {
    let mut monitor = ClipboardMonitor::new();
    let content = monitor.get_recent_content(Some("test content".to_string()));
    assert_eq!(content, Some("test content".to_string()));
    // The same text again is not new.
    assert!(monitor.get_recent_content(Some("test content".to_string())).is_none());
}

#[test]
fn test_clipboard_size_limit() {
    let mut monitor = ClipboardMonitor::new();
    let large_content = "a".repeat(MAX_CLIPBOARD_LENGTH + 1);
    let content = monitor.get_recent_content(Some(large_content));
    assert!(content.is_none());
    let limit_content = "a".repeat(MAX_CLIPBOARD_LENGTH);
    assert!(monitor.get_recent_content(Some(limit_content)).is_some());
}

#[test]
fn test_time_since_update() {
    let monitor = ClipboardMonitor::new();
    let elapsed = monitor.time_since_update();
    assert!(elapsed < 1000);
    let fixed = ClipboardMonitor::new_at(5_000);
    assert_eq!(fixed.time_since_update_at(7_500), 2_500);
    assert_eq!(fixed.time_since_update_at(1_000), 0);
}

#[test]
fn linux_detection_falls_back_in_order() {
    let ewmh = get_active_app_linux_ewmh();
    assert_eq!(ewmh.as_ref().unwrap_err().message(), "Not available: EWMH support not yet implemented");

    let found = get_active_app_linux(Ok(sample_app()), Err(AppDetectionError::NoActiveWindow)).unwrap();
    assert_eq!(found.name, "TestApp");

    let mut other = sample_app();
    other.name = "Fallback".to_string();
    let fallback = get_active_app_linux(Err(AppDetectionError::Linux("boom".to_string())), Ok(other)).unwrap();
    assert_eq!(fallback.name, "Fallback");

    let none = get_active_app_linux(Err(AppDetectionError::Linux("boom".to_string())), get_active_app_linux_ewmh());
    assert_eq!(
        none.unwrap_err().message(),
        "Not available: No window detection method available (install xdotool or wmctrl)"
    );
}

#[test]
fn macos_placeholders() {
    assert_eq!(get_window_title_macos().unwrap(), "Window");
    assert_eq!(check_tcc_status_macos(), TCCStatus::Unknown);
}
