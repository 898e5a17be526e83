use shadowlearn::artefact::{fallback_content, ArtefactStats, ArtefactType};

#[test]
fn fallback_contents_by_kind() {
    assert_eq!(fallback_content(ArtefactType::Midi), "MThd");
    assert_eq!(fallback_content(ArtefactType::Json), "{\"fallback\": true}");
    assert_eq!(fallback_content(ArtefactType::Blend), "import bpy\n# Fallback Blender script");
    assert_eq!(fallback_content(ArtefactType::Shader), "void main() { gl_FragColor = vec4(1.0); }");
    assert_eq!(fallback_content(ArtefactType::Python), "# Fallback Python script\ndef main():\n    pass");
    assert_eq!(
        fallback_content(ArtefactType::Text),
        "// Fallback code generated\nfn main() {\n    println!(\"Hello, World!\");\n}"
    );
    assert_eq!(fallback_content(ArtefactType::Unknown), format!("// Fallback for {:?}", ArtefactType::Unknown));
}

#[test]
fn artefact_generations_are_counted() {
    let mut stats = ArtefactStats::new();
    stats.record_success(120);
    stats.record_failure();
    stats.record_success(30);
    assert_eq!(stats.total_generated, 3);
    assert_eq!(stats.successful, 2);
    assert_eq!(stats.failed, 1);
    assert_eq!(stats.total_generation_time_ms, 150);
    assert_eq!(stats.total_generated, stats.successful + stats.failed);
}
