use shadowlearn::config::{AppConfig, ConfigManager};
use shadowlearn::learn::{ActionType, LearnManager, WorkflowAction};

#[test]
fn default_config() {
    let c = AppConfig::default();
    assert!(c.apps.allowlist.is_empty());
    assert_eq!(c.triggers.idle_threshold_s, 12);
    assert_eq!(c.triggers.cooldown_accept_s, 45);
    assert_eq!(c.triggers.cooldown_dismiss_s, 90);
    assert_eq!(c.llm.provider, "ollama");
    assert_eq!(c.llm.model, "llama3");
    assert!(c.llm.api_key.is_none());
    assert_eq!(c.shortcuts.show, "CmdOrCtrl+Shift+S");
    assert_eq!(c.shortcuts.chat, "CmdOrCtrl+K");
    assert!(!c.captures.enabled);
    assert_eq!(c.captures.min_interval_s, 60);
}

#[test]
fn config_manager_round_trip() {
    let mut m = ConfigManager::new("/tmp/config.json".to_string(), None);
    assert_eq!(m.get_config_path(), "/tmp/config.json");
    let mut c = m.get_config().unwrap();
    assert_eq!(c.llm.provider, "ollama");
    c.llm.provider = "openai".to_string();
    c.apps.blocklist.push("Slack".to_string());
    m.update_config(c).unwrap();
    let c2 = m.get_config().unwrap();
    assert_eq!(c2.llm.provider, "openai");
    assert_eq!(c2.apps.blocklist, vec!["Slack".to_string()]);
}

fn action(kind: ActionType, t: i64) -> WorkflowAction {
    WorkflowAction {
        timestamp: t,
        action_type: kind,
        app_name: "Blender".to_string(),
        description: String::new(),
        screenshot_path: None,
        metadata: "{}".to_string(),
    }
}

#[test]
fn recording_lifecycle() {
    let mut m = LearnManager::new(2);
    assert_eq!(m.start_recording_at("Model a Cup", "Blender", 1000), Ok("workflow_1000".to_string()));
    assert_eq!(m.start_recording_at("again", "Blender", 1001), Err("Already recording a workflow".to_string()));
    m.record_action(action(ActionType::ToolUsed { tool_name: "Extrude".to_string() }, 1010));
    m.add_comment_at("Shape the handle", 1020).unwrap();
    m.record_action(action(ActionType::Command { command: "bpy.ops.mesh()".to_string() }, 1030));
    m.record_action(action(ActionType::KeyboardInput { keys: "Ctrl+S".to_string() }, 1040));
    let state = m.get_recording_state_at(1100);
    assert!(state.is_recording);
    assert_eq!(state.actions_recorded, 4);
    assert_eq!(state.recording_duration_seconds, 100);
    let w = m.stop_recording_at(1000 + 125).unwrap();
    assert_eq!(w.duration_minutes, 2);
    assert_eq!(w.end_time, Some(1125));
    assert_eq!(w.actions.len(), 4);
    assert_eq!(w.actions[1].description, "💬 Shape the handle");
    assert_eq!(w.actions[1].metadata, "{\"comment\":\"Shape the handle\"}");
    assert_eq!(m.stop_recording_at(1200).unwrap_err(), "Not currently recording");
    assert_eq!(m.add_comment_at("x", 1300), Err("Not recording".to_string()));

    let t = m.generate_tutorial_at("workflow_1000", 2000).unwrap();
    assert_eq!(t.id, "tutorial_2000");
    assert_eq!(t.description, "Learn how to model a cup");
    assert_eq!(t.difficulty, "Beginner");
    assert_eq!(t.estimated_duration, 2);
    assert_eq!(t.steps.len(), 2);
    assert_eq!(t.steps[0].step_number, 1);
    assert_eq!(t.steps[0].title, "Shape the handle");
    assert_eq!(t.steps[0].description, "Use Extrude");
    assert_eq!(t.steps[1].title, "Step 2");
    assert_eq!(t.steps[1].description, "Run: `bpy.ops.mesh()`");
    assert_eq!(t.steps[1].code_snippet, Some("bpy.ops.mesh()".to_string()));
    assert_eq!(t.steps[1].tips, vec!["💡 Use keyboard shortcuts to work faster".to_string()]);
    assert_eq!(m.tutorial_count(), 1);
    assert_eq!(m.generate_tutorial_at("missing", 2000).unwrap_err(), "Workflow not found");
}

#[test]
fn workflows_are_bounded() {
    let mut m = LearnManager::new(2);
    for k in 0..3i64 {
        m.start_recording_at("w", "App", k * 100).unwrap();
        m.stop_recording_at(k * 100 + 60).unwrap();
    }
    let ws = m.get_workflows();
    assert_eq!(ws.len(), 2);
    assert_eq!(ws[0].id, "workflow_100");
    assert_eq!(ws[1].id, "workflow_200");
}

#[test]
fn negative_durations_round_toward_zero() {
    let mut m = LearnManager::new(5);
    m.start_recording_at("w", "App", 1000).unwrap();
    let w = m.stop_recording_at(1000 - 90).unwrap();
    // (-90) / 60 rounds toward zero to -1, which reads as u32::MAX.
    assert_eq!(w.duration_minutes, u32::MAX);
}

#[test]
fn comments_are_stored_as_escaped_json() {
    let mut m = LearnManager::new(2);
    m.start_recording_at("Escapes", "Code", 10).unwrap();
    m.add_comment_at("say \"hi\"\\\n\t\u{1}é", 11).unwrap();
    let w = m.stop_recording_at(20).unwrap();
    assert_eq!(w.actions[0].metadata, "{\"comment\":\"say \\\"hi\\\"\\\\\\n\\t\\u0001é\"}");
}
