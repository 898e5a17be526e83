use shadowlearn::chat::{chat_reply, LLMClientStats, plan_slash_command, slash_command_result, ChatAction, ChatEvent, ChatResponse, ChatRetry, ChatStage, LLMProvider as ChatProvider, SlashPlan};
use shadowlearn::intent::{extract_clipboard_keywords, extract_domain_hints, heuristic_intent_detection, is_stop_word, IntentType, LLMProvider};

#[test]
fn intent_names_round_trip() {
    for t in [IntentType::Debugging, IntentType::Learning, IntentType::Creating, IntentType::Researching, IntentType::Stuck] {
        assert_eq!(IntentType::from_str(t.as_str()), t);
    }
    assert_eq!(IntentType::from_str("DEBUGGING"), IntentType::Debugging);
    assert_eq!(IntentType::from_str("whatever"), IntentType::Unknown);
    assert_eq!(IntentType::Unknown.as_str(), "unknown");
}

#[test]
fn provider_names() {
    assert_eq!(LLMProvider::from_str("OpenAI"), LLMProvider::OpenAI);
    assert_eq!(LLMProvider::from_str("anthropic"), LLMProvider::Anthropic);
    assert_eq!(LLMProvider::from_str("nope"), LLMProvider::Ollama);
    assert_eq!(LLMProvider::Anthropic.as_str(), "anthropic");
    assert_eq!(LLMProvider::Ollama.base_url(), "http://localhost:11434");
}

#[test]
fn heuristics() {
    assert_eq!(heuristic_intent_detection("VS Code", "main.rs - Error", 0), IntentType::Debugging);
    assert_eq!(heuristic_intent_detection("Browser", "StackOverflow question", 0), IntentType::Learning);
    assert_eq!(heuristic_intent_detection("Code Editor", "main.rs", 0), IntentType::Creating);
    assert_eq!(heuristic_intent_detection("Finder", "Home", 61_000), IntentType::Stuck);
    assert_eq!(heuristic_intent_detection("Finder", "Home", 60_000), IntentType::Unknown);
}

#[test]
fn domain_hints() {
    let hints = extract_domain_hints("Visual Studio Code", "Debug console - GitHub", Some("import os\nTraceback"));
    assert_eq!(hints, vec!["development", "debugging", "research", "coding", "error_analysis"]);
    assert!(extract_domain_hints("Finder", "Home", None).is_empty());
}

#[test]
fn keywords() {
    assert!(is_stop_word("the"));
    assert!(!is_stop_word("rust"));
    let k = extract_clipboard_keywords(Some("The QUICK brown fox jumps over these lazy dogs again and again"));
    assert_eq!(k, vec!["quick", "brown", "jumps", "over", "lazy"]);
    assert!(extract_clipboard_keywords(None).is_empty());
}

#[test]
fn chat_protocol_primary_success() {
    let (mut retry, action) = ChatRetry::start();
    assert!(matches!(action, ChatAction::SendPrimary { attempt: 0 }));
    let a = retry.on_event(ChatEvent::Reply("hi".to_string()));
    match a {
        ChatAction::Succeed { content, used_fallback } => {
            assert_eq!(content, "hi");
            assert!(!used_fallback);
        }
        other => panic!("unexpected {:?}", other),
    }
    assert!(retry.is_done());
}

#[test]
fn chat_protocol_backoff_then_fallback() {
    let (mut retry, _) = ChatRetry::start();
    assert!(matches!(retry.on_event(ChatEvent::Failed("e".to_string())), ChatAction::Wait { secs: 2 }));
    assert!(matches!(retry.on_event(ChatEvent::Waited), ChatAction::SendPrimary { attempt: 1 }));
    assert!(matches!(retry.on_event(ChatEvent::Failed("e".to_string())), ChatAction::Wait { secs: 4 }));
    assert!(matches!(retry.on_event(ChatEvent::Waited), ChatAction::SendPrimary { attempt: 2 }));
    assert!(matches!(retry.on_event(ChatEvent::TimedOut), ChatAction::SendFallback));
    assert_eq!(retry.stage, ChatStage::Fallback);
    match retry.on_event(ChatEvent::Failed("down".to_string())) {
        ChatAction::Fail { message } => assert_eq!(message, "LLM unavailable (both providers failed): down"),
        other => panic!("unexpected {:?}", other),
    }
    assert!(retry.is_done());
    assert!(matches!(retry.on_event(ChatEvent::Waited), ChatAction::Ignore));
}

#[test]
fn chat_protocol_fallback_timeout() {
    let (mut retry, _) = ChatRetry::start();
    retry.on_event(ChatEvent::TimedOut);
    retry.on_event(ChatEvent::TimedOut);
    assert!(matches!(retry.on_event(ChatEvent::Failed("x".to_string())), ChatAction::Wait { secs: 8 }));
    assert!(matches!(retry.on_event(ChatEvent::Waited), ChatAction::SendFallback));
    match retry.on_event(ChatEvent::TimedOut) {
        ChatAction::Fail { message } => assert_eq!(message, "LLM timeout (both providers)"),
        other => panic!("unexpected {:?}", other),
    }
}

#[test]
fn providers_and_replies() {
    let p = ChatProvider::detect_primary_provider(Some("SECRET-REDACTED".to_string()));
    assert_eq!(p.provider_name(), "openai");
    let p = ChatProvider::detect_primary_provider(None);
    assert_eq!(p.provider_name(), "ollama");
    let ok = chat_reply(Ok(ChatResponse { content: "c".to_string(), provider: "ollama".to_string(), used_fallback: false, ttfr_ms: 3 }));
    assert_eq!(ok, Ok("c".to_string()));
    let err = chat_reply(Err("boom".to_string()));
    assert_eq!(err, Err("Cloud indisponible. Essayez Ollama (modèle local). Erreur: boom".to_string()));
}

#[test]
fn slash_commands() {
    match plan_slash_command("explain", "closures") {
        SlashPlan::AskModel { prompt } => assert_eq!(prompt, "Explique clairement et simplement : closures"),
        other => panic!("unexpected {:?}", other),
    }
    match plan_slash_command("nope", "") {
        SlashPlan::Reply { success, message } => {
            assert!(!success);
            assert_eq!(message, "Commande inconnue: /nope");
        }
        other => panic!("unexpected {:?}", other),
    }
    let help = plan_slash_command("help", "");
    let r = slash_command_result(help, None).unwrap();
    assert!(r.success);
    assert!(r.message.starts_with("Commandes disponibles:"));
    assert!(r.data.is_none());
    let answered = slash_command_result(plan_slash_command("debug", "err"), Some(Ok("fix".to_string()))).unwrap();
    assert_eq!(answered.message, "fix");
    assert!(answered.data.is_none());
    let ask = plan_slash_command("debug", "err");
    assert_eq!(slash_command_result(ask, Some(Err("x".to_string()))).unwrap_err(), "Failed to chat with LLM: x");
}

#[test]
fn test_chat_client_stats_counts() {
    let mut s = LLMClientStats::new();
    s.record_request();
    s.record_success(false, 300);
    s.record_request();
    s.record_success(true, 700);
    s.record_request();
    s.record_failure();
    assert_eq!(s.total_requests, 3);
    assert_eq!(s.successful_requests, 2);
    assert_eq!(s.failed_requests, 1);
    assert_eq!(s.fallback_used, 1);
    assert_eq!(s.total_ttfr_ms, 1000);
}

#[test]
fn names_round_trip_and_ignore_case() {
    for t in [IntentType::Debugging, IntentType::Learning, IntentType::Creating, IntentType::Researching, IntentType::Stuck, IntentType::Unknown] {
        assert_eq!(IntentType::from_str(t.as_str()), t);
    }
    assert_eq!(IntentType::from_str("DEBUGGING"), IntentType::Debugging);
    assert_eq!(IntentType::from_str("Stuck"), IntentType::Stuck);
    assert_eq!(IntentType::from_str("coding"), IntentType::Unknown);
    assert_eq!(IntentType::from_str(""), IntentType::Unknown);
    for p in [LLMProvider::Ollama, LLMProvider::OpenAI, LLMProvider::Anthropic] {
        assert_eq!(LLMProvider::from_str(p.as_str()), p);
    }
    assert_eq!(LLMProvider::from_str("OpenAI"), LLMProvider::OpenAI);
    assert_eq!(LLMProvider::from_str("ANTHROPIC"), LLMProvider::Anthropic);
    assert_eq!(LLMProvider::from_str("gpt-4"), LLMProvider::Ollama);
    assert_eq!(LLMProvider::from_str(""), LLMProvider::Ollama);
}
