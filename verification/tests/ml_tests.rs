use shadowlearn::ml::{
    analyze_favorite_apps, cleanup_old_events, ignored_apps, productive_hours, suggestions_from, utc_hour,
    AppUsageStats, EventType, MLConfig, PersonalizationManager, UserEvent, UserResponse, event_type_from_str, user_response_from_str,
};

const HOUR: i64 = 3600;
const DAY: i64 = 86400;

fn event(ts: i64, kind: EventType, app: &str) -> UserEvent {
    UserEvent { timestamp: ts, event_type: kind, app_name: app.to_string(), context: None, user_response: None }
}

fn stats(app: &str, total: u32, accepted: u32) -> AppUsageStats {
    AppUsageStats {
        app_name: app.to_string(),
        total_triggers: total,
        accepted_triggers: accepted,
        ignored_triggers: 0,
        peak_hours: Vec::new(),
        last_used: None,
    }
}

#[test]
fn test_utc_hour_of_times() {
    assert_eq!(utc_hour(0), 0);
    assert_eq!(utc_hour(13 * HOUR + 5), 13);
    assert_eq!(utc_hour(-1), 23);
    assert_eq!(utc_hour(1_700_000_000), 22);
}

#[test]
fn test_analyze_favorite_apps_counts() {
    let events = vec![
        event(9 * HOUR, EventType::TriggerFired, "Code"),
        event(9 * HOUR + 10, EventType::TriggerAccepted, "Code"),
        event(10 * HOUR, EventType::TriggerFired, "Browser"),
        event(10 * HOUR + 5, EventType::TriggerIgnored, "Browser"),
        event(14 * HOUR, EventType::TriggerFired, "Code"),
        event(14 * HOUR + 1, EventType::ClipboardChanged, "Code"),
    ];
    let s = analyze_favorite_apps(&events);
    assert_eq!(s.len(), 2);
    assert_eq!(s[0].app_name, "Code");
    assert_eq!(s[0].total_triggers, 2);
    assert_eq!(s[0].accepted_triggers, 1);
    assert_eq!(s[0].ignored_triggers, 0);
    assert_eq!(s[0].peak_hours, vec![9u8, 14]);
    assert_eq!(s[0].last_used, Some(14 * HOUR));
    assert_eq!(s[1].app_name, "Browser");
    assert_eq!(s[1].total_triggers, 1);
    assert_eq!(s[1].ignored_triggers, 1);
    assert_eq!(s[1].last_used, Some(10 * HOUR));

    let ignored = ignored_apps(&s);
    assert_eq!(ignored, vec![("Browser".to_string(), 1u32)]);
}

#[test]
fn test_productive_hours_top_three() {
    let mut events = Vec::new();
    for h in [9i64, 9, 9, 14, 14, 14, 10, 11, 11] {
        events.push(event(h * HOUR, EventType::TriggerAccepted, "Code"));
    }
    events.push(event(8 * HOUR, EventType::TriggerFired, "Code"));
    assert_eq!(productive_hours(&events), vec![9u8, 14, 11]);

    let few = vec![event(5 * HOUR, EventType::TriggerAccepted, "Code")];
    assert_eq!(productive_hours(&few), vec![5u8]);
    assert!(productive_hours(&[]).is_empty());
}

#[test]
fn test_suggestions_from_rates() {
    let s = vec![
        stats("Welcome", 10, 8),  // 80% over 10
        stats("Edge", 10, 7),     // 70% exactly: not above
        stats("Few", 2, 2),       // too few suggestions
        stats("Ignored", 10, 1),  // 10% over 10
        stats("Border", 5, 1),    // 20% exactly: not below
    ];
    let r = suggestions_from(&s, &[14, 9], 9);
    assert_eq!(r.recommended_apps, vec!["Welcome".to_string()]);
    assert_eq!(r.apps_to_mute, vec!["Ignored".to_string()]);
    assert_eq!(r.optimal_trigger_hour, Some(14));
    assert_eq!(r.recommended_thresholds.idle_threshold, 9);
    assert_eq!(r.recommended_thresholds.base_cooldown, 45);
    assert_eq!(r.recommended_thresholds.dismiss_cooldown, 90);
    assert_eq!(r.recommended_thresholds.debounce_threshold, 2);

    let none = suggestions_from(&[], &[], 0);
    assert_eq!(none.optimal_trigger_hour, None);
    assert!(none.recommended_apps.is_empty());
}

#[test]
fn test_cleanup_old_events_retention() {
    let now = 100 * DAY;
    let events = vec![
        event(now - 31 * DAY, EventType::TriggerFired, "Old"),
        event(now - 30 * DAY, EventType::TriggerFired, "Edge"),
        event(now - 29 * DAY, EventType::TriggerFired, "Kept"),
        event(now, EventType::TriggerFired, "Now"),
    ];
    let kept = cleanup_old_events(events, now, 30);
    let names: Vec<&str> = kept.iter().map(|e| e.app_name.as_str()).collect();
    assert_eq!(names, vec!["Kept", "Now"]);
}

#[test]
fn test_personalization_learns_after_enough_events() {
    let mut m = PersonalizationManager::new();
    assert_eq!(MLConfig::default_config().min_events_for_learning, 10);
    let now = 1000 * DAY;
    for i in 0..9 {
        m.record_event_at(event(now + i, EventType::TriggerFired, "Code"), now + i);
    }
    assert_eq!(m.events().len(), 9);
    assert!(m.get_patterns().favorite_apps.is_empty());

    m.record_event_at(event(now + 9, EventType::TriggerAccepted, "Code"), now + 9);
    assert_eq!(m.events().len(), 10);
    let p = m.get_patterns();
    assert_eq!(p.favorite_apps.len(), 1);
    assert_eq!(p.favorite_apps[0].total_triggers, 9);
    assert_eq!(p.favorite_apps[0].accepted_triggers, 1);
    assert_eq!(p.productive_hours, vec![utc_hour(now + 9)]);

    // Forty days later the old events are dropped.
    m.record_event_at(event(now + 40 * DAY, EventType::TriggerFired, "Code"), now + 40 * DAY);
    assert_eq!(m.events().len(), 1);

    let s = m.generate_suggestions(12);
    assert_eq!(s.optimal_trigger_hour, Some(utc_hour(now + 9)));
    assert!(s.recommended_apps.is_empty());
}

#[test]
fn test_ml_event_names() {
    assert_eq!(event_type_from_str("trigger_fired"), Ok(EventType::TriggerFired));
    assert_eq!(event_type_from_str("idle_detected"), Ok(EventType::IdleDetected));
    assert_eq!(event_type_from_str("nope"), Err("Invalid event type: nope".to_string()));
    assert_eq!(user_response_from_str("snoozed"), Ok(UserResponse::Snoozed));
    assert_eq!(user_response_from_str("maybe"), Err("Invalid user response: maybe".to_string()));

    let e = UserEvent::from_names("trigger_accepted", "Code".to_string(), Some("2.5".to_string()), Some("accepted"), 42).unwrap();
    assert_eq!(e.event_type, EventType::TriggerAccepted);
    assert_eq!(e.user_response, Some(UserResponse::Accepted));
    assert_eq!(e.app_name, "Code");
    assert_eq!(e.context, Some("2.5".to_string()));
    assert_eq!(e.timestamp, 42);
    assert_eq!(
        UserEvent::from_names("bad", "Code".to_string(), None, Some("bad"), 0).unwrap_err(),
        "Invalid event type: bad"
    );
    assert_eq!(
        UserEvent::from_names("app_muted", "Code".to_string(), None, Some("bad"), 0).unwrap_err(),
        "Invalid user response: bad"
    );
}
