use shadowlearn::health::{assess_idle_detector, ComponentHealth, HealthMonitor, PermissionStatus};

#[test]
fn test_health_monitor_creation() {
    let monitor = HealthMonitor::new();
    assert_eq!(monitor.get_last_check(), 0);
}

#[test]
fn test_health_monitor_update() {
    let mut monitor = HealthMonitor::new();
    let now = monitor.update_check();
    assert!(monitor.get_last_check() > 0);
    assert_eq!(monitor.get_last_check(), now);
}

#[test]
fn test_component_health_status() {
    let healthy = ComponentHealth::Healthy;
    assert!(healthy.is_healthy());
    assert!(!healthy.is_degraded());
    assert!(!healthy.is_down());

    let degraded = ComponentHealth::Degraded { reason: "Test".to_string() };
    assert!(!degraded.is_healthy());
    assert!(degraded.is_degraded());
    assert!(!degraded.is_down());

    let down = ComponentHealth::Down { reason: "Test".to_string() };
    assert!(!down.is_healthy());
    assert!(!down.is_degraded());
    assert!(down.is_down());
}

#[test]
fn test_check_health() {
    let mut monitor = HealthMonitor::new();
    let status = monitor.check_health();

    assert!(status.idle_detector.is_healthy());
    assert!(status.screenshot.is_healthy());
    assert!(status.permissions.is_all_granted());
    assert!(status.timestamp > 0);
}

#[test]
fn idle_detector_assessment() {
    assert!(assess_idle_detector(0, 1000).is_healthy());
    assert!(assess_idle_detector(100, 101).is_healthy());
    match assess_idle_detector(100, 105) {
        ComponentHealth::Degraded { reason } => assert_eq!(reason, "Last check 5s ago"),
        other => panic!("unexpected {:?}", other),
    }
    match assess_idle_detector(100, 142) {
        ComponentHealth::Down { reason } => assert_eq!(reason, "No check for 42s"),
        other => panic!("unexpected {:?}", other),
    }
    // A clock that went back counts as no time elapsed.
    assert!(assess_idle_detector(100, 50).is_healthy());
}

#[test]
fn check_health_at_fixed_times() {
    let mut monitor = HealthMonitor::new();
    let status = monitor.check_health_at(1000, 1010);
    assert_eq!(status.timestamp, 1000);
    assert!(status.idle_detector.is_down());
    assert_eq!(monitor.get_last_check(), 1000);
}

#[test]
fn permissions() {
    assert!(PermissionStatus { screen_capture: true, accessibility: true }.is_all_granted());
    assert!(!PermissionStatus { screen_capture: true, accessibility: false }.is_all_granted());
}
