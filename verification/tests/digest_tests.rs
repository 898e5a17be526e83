use shadowlearn::digest::{acceptance_rate, DigestManager};

#[test]
fn digest_counts_and_top_apps() {
    let mut m = DigestManager::new();
    for _ in 0..3 {
        m.record_suggestion_shown("VS Code");
    }
    m.record_suggestion_shown("Terminal");
    for _ in 0..2 {
        m.record_suggestion_shown("Browser");
    }
    m.record_suggestion_shown("Blender");
    m.record_suggestion_accepted();
    let d = m.get_digest();
    assert_eq!(d.suggestions_shown, 7);
    assert_eq!(d.suggestions_accepted, 1);
    assert_eq!(d.time_saved_minutes, 2);
    let top: Vec<(String, u32)> = d.top_apps.iter().map(|a| (a.name.clone(), a.count)).collect();
    assert_eq!(top, vec![("VS Code".to_string(), 3), ("Browser".to_string(), 2), ("Terminal".to_string(), 1)]);
    assert_eq!(d.highlights, vec!["Tu as accepté 14% des suggestions 🎯".to_string()]);
}

#[test]
fn digest_highlights_for_a_good_day() {
    let mut m = DigestManager::new();
    for _ in 0..8 {
        m.record_suggestion_shown("VS Code");
    }
    for _ in 0..5 {
        m.record_suggestion_accepted();
    }
    let d = m.get_digest();
    assert_eq!(d.time_saved_minutes, 10);
    assert_eq!(
        d.highlights,
        vec![
            "Tu as accepté 62% des suggestions 🎯".to_string(),
            "10 min gagnées sur du debugging".to_string(),
            "Ton meilleur jour cette semaine 🚀".to_string(),
        ]
    );
}

#[test]
fn digest_reset() {
    let mut m = DigestManager::new();
    m.record_suggestion_shown("A");
    m.record_suggestion_accepted();
    m.reset_daily();
    let d = m.get_digest();
    assert_eq!(d.suggestions_shown, 0);
    assert_eq!(d.suggestions_accepted, 0);
    assert!(d.top_apps.is_empty());
    assert!(d.highlights.is_empty());
}

#[test]
fn acceptance_rates() {
    assert_eq!(acceptance_rate(3, 1), 33);
    assert_eq!(acceptance_rate(4, 4), 100);
    assert_eq!(acceptance_rate(0, 1), u32::MAX);
}
