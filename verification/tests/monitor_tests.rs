use shadowlearn::monitor::{
    detect_patterns, detect_red_squiggles, generate_description, generate_ocr_suggestion, guess_language, is_browser, is_code_editor,
    is_terminal, sample_positions, ClaudeVisionClient, DetectedPattern, Pixel, Sample,
};

fn samples(pixels: &[(u8, u8, u8)], repeat: usize) -> Vec<Sample> {
    let mut v = Vec::new();
    for _ in 0..repeat {
        for &(r, g, b) in pixels {
            v.push(Sample { x: 0, y: 0, pixel: Pixel { r, g, b, a: 255 } });
        }
    }
    v
}

#[test]
fn test_pattern_detection() {
    // A 100 by 100 image is sampled on a 10 by 10 grid.
    let positions = sample_positions(100, 100);
    assert_eq!(positions.len(), 100);
    assert_eq!(positions[0], (0, 0));
    assert_eq!(positions[11], (10, 10));
    assert_eq!(positions[99], (90, 90));
    let tiny = sample_positions(1, 3);
    assert_eq!(tiny[99], (0, 2));
}

#[test]
fn test_code_editor_detection() {
    // Dark background with some colourful highlighting and red marks.
    let mut s = samples(&[(20, 20, 20)], 70);
    s.extend(samples(&[(250, 30, 30)], 30));
    assert!(is_code_editor(&s));
    assert!(!is_terminal(&s));
    assert!(!is_browser(&s));
    assert!(detect_red_squiggles(&s));
    assert_eq!(guess_language(&s), None);
    let patterns = detect_patterns(&s);
    assert_eq!(patterns.len(), 1);
    match &patterns[0] {
        DetectedPattern::CodeEditor { language, has_errors } => {
            assert!(language.is_none());
            assert!(*has_errors);
        }
        _ => panic!("expected a code editor"),
    }
    assert_eq!(generate_description(&patterns), "Code editor detected (unknown language) with potential errors highlighted");
}

#[test]
fn test_terminal_and_browser() {
    // A light monochrome screen looks like a terminal and a browser.
    let s = samples(&[(240, 240, 240)], 100);
    let patterns = detect_patterns(&s);
    assert_eq!(patterns.len(), 2);
    assert_eq!(
        generate_description(&patterns),
        "Terminal session active. Browser with error/stack trace visible"
    );
}

#[test]
fn test_language_guess() {
    let s = samples(&[(10, 10, 200), (10, 200, 10), (230, 230, 10)], 1);
    assert_eq!(guess_language(&s).as_deref(), Some("JavaScript"));
    let s2 = samples(&[(10, 10, 200), (10, 200, 10)], 1);
    assert_eq!(guess_language(&s2).as_deref(), Some("Python"));
    let s3 = samples(&[(230, 230, 10)], 1);
    assert_eq!(guess_language(&s3).as_deref(), Some("Rust"));
}

#[test]
fn test_descriptions() {
    assert_eq!(generate_description(&[]), "Generic application window");
    let p = vec![
        DetectedPattern::Terminal { has_errors: true, error_type: None },
        DetectedPattern::IDE { name: "IntelliJ".to_string() },
        DetectedPattern::Browser { has_stack_trace: false },
        DetectedPattern::CodeEditor { language: Some("Rust".to_string()), has_errors: false },
    ];
    assert_eq!(
        generate_description(&p),
        "Terminal with error: unknown error. IDE detected: IntelliJ. Web browser active. Code editor detected (Rust)"
    );
}

#[test]
fn test_no_samples() {
    assert!(!is_code_editor(&[]));
    assert!(!is_terminal(&[]));
    assert!(!is_browser(&[]));
    assert_eq!(detect_patterns(&[]).len(), 0);
}

#[test]
fn test_vision_client_needs_key() {
    let err = ClaudeVisionClient::with_api_key(None).unwrap_err();
    assert_eq!(err, "ANTHROPIC_API_KEY not found in environment");
    let ok = ClaudeVisionClient::with_api_key(Some("test-key".to_string())).unwrap();
    assert_eq!(ok.api_key, "test-key");
    assert_eq!(ok.base_url, "https://api.anthropic.com/v1");
}

#[test]
fn test_ocr_suggestions() {
    assert_eq!(
        generate_ocr_suggestion(&[], "Slack"),
        "Activité détectée : Slack. Besoin d'aide ?"
    );
    let patterns = vec![
        DetectedPattern::CodeEditor { language: Some("Rust".to_string()), has_errors: true },
        DetectedPattern::Terminal { has_errors: true, error_type: None },
    ];
    assert_eq!(
        generate_ocr_suggestion(&patterns, "ignored"),
        "Erreur détectée dans ton Rust ! Je peux t'aider à la corriger ? Commande échouée (erreur) - besoin d'aide pour débugger ?"
    );
    let quiet = vec![
        DetectedPattern::CodeEditor { language: None, has_errors: false },
        DetectedPattern::Browser { has_stack_trace: true },
        DetectedPattern::IDE { name: "VS Code".to_string() },
    ];
    assert_eq!(
        generate_ocr_suggestion(&quiet, ""),
        "Tu codes ? Je peux suggérer des améliorations ou générer des tests. Stack trace détecté ! Je peux analyser l'erreur et proposer une solution. Tu utilises VS Code - besoin d'aide avec ton workflow ?"
    );
    let calm = vec![
        DetectedPattern::Terminal { has_errors: false, error_type: None },
        DetectedPattern::Browser { has_stack_trace: false },
    ];
    assert_eq!(
        generate_ocr_suggestion(&calm, ""),
        "Terminal actif - je peux suggérer des commandes optimisées. Navigation web - je peux résumer la page ou extraire du contenu."
    );
}

#[test]
fn test_client_creation_without_key() {
    // The environment holds no key.
    let result = ClaudeVisionClient::with_api_key(None);
    assert!(result.is_err());
}

#[test]
fn test_client_creation_with_key() {
    let result = ClaudeVisionClient::with_api_key(Some("test-key".to_string()));
    assert!(result.is_ok());
}
