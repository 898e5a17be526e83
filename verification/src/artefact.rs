//! Artefacts made for the user: what is given when the language model
//! cannot make one, and the counts of the generations.
use vstd::prelude::*;

verus! {

/// Kinds of artefact.
#[derive(Debug, Clone, Copy, PartialEq, Eq, Structural)]
pub enum ArtefactType {
    Text,
    Blend,
    Midi,
    Shader,
    Json,
    Python,
    Unknown,
}

/// The content given for a kind of artefact when the model fails: a small
/// program, script, header or document of that kind.
pub open spec fn spec_fallback_content(t: ArtefactType) -> Seq<char> {
    match t {
        ArtefactType::Text => "// Fallback code generated\nfn main() {\n    println!(\"Hello, World!\");\n}"@,
        ArtefactType::Blend => "import bpy\n# Fallback Blender script"@,
        ArtefactType::Midi => "MThd"@,
        ArtefactType::Shader => "void main() { gl_FragColor = vec4(1.0); }"@,
        ArtefactType::Json => "{\"fallback\": true}"@,
        ArtefactType::Python => "# Fallback Python script\ndef main():\n    pass"@,
        ArtefactType::Unknown => "// Fallback for Unknown"@,
    }
}

/// The content given for a kind of artefact when the model fails (see
/// `spec_fallback_content`).
pub fn fallback_content(artefact_type: ArtefactType) -> (s: String)
    ensures
        s@ == spec_fallback_content(artefact_type),
{
    match artefact_type {
        ArtefactType::Text => String::from_str("// Fallback code generated\nfn main() {\n    println!(\"Hello, World!\");\n}"),
        ArtefactType::Blend => String::from_str("import bpy\n# Fallback Blender script"),
        ArtefactType::Midi => String::from_str("MThd"),
        ArtefactType::Shader => String::from_str("void main() { gl_FragColor = vec4(1.0); }"),
        ArtefactType::Json => String::from_str("{\"fallback\": true}"),
        ArtefactType::Python => String::from_str("# Fallback Python script\ndef main():\n    pass"),
        ArtefactType::Unknown => String::from_str("// Fallback for Unknown"),
    }
}

/// Counts of the artefact generations (the average time is the total over
/// the generations).
#[derive(Debug, Clone, Copy, PartialEq, Eq, Structural)]
pub struct ArtefactStats {
    pub total_generated: u64,
    pub successful: u64,
    pub failed: u64,
    pub total_generation_time_ms: u64,
}

impl ArtefactStats {
    /// Nothing generated yet.
    pub fn new() -> (s: Self)
        ensures
            s == (ArtefactStats { total_generated: 0, successful: 0, failed: 0, total_generation_time_ms: 0 }),
    {
        ArtefactStats { total_generated: 0, successful: 0, failed: 0, total_generation_time_ms: 0 }
    }

    /// Counts a generation that succeeded in `duration_ms`.
    pub fn record_success(&mut self, duration_ms: u64)
        requires
            old(self).total_generated < u64::MAX,
            old(self).successful < u64::MAX,
            old(self).total_generation_time_ms + duration_ms <= u64::MAX,
        ensures
            *final(self) == (ArtefactStats {
                total_generated: (old(self).total_generated + 1) as u64,
                successful: (old(self).successful + 1) as u64,
                failed: old(self).failed,
                total_generation_time_ms: (old(self).total_generation_time_ms + duration_ms) as u64,
            }),
    {
        self.total_generated = self.total_generated + 1;
        self.successful = self.successful + 1;
        self.total_generation_time_ms = self.total_generation_time_ms + duration_ms;
    }

    /// Counts a generation that failed.
    pub fn record_failure(&mut self)
        requires
            old(self).total_generated < u64::MAX,
            old(self).failed < u64::MAX,
        ensures
            *final(self) == (ArtefactStats {
                total_generated: (old(self).total_generated + 1) as u64,
                successful: old(self).successful,
                failed: (old(self).failed + 1) as u64,
                total_generation_time_ms: old(self).total_generation_time_ms,
            }),
    {
        self.total_generated = self.total_generated + 1;
        self.failed = self.failed + 1;
    }
}

/// Every generation is counted once, as a success or as a failure.
pub proof fn lemma_generations_add_up(s: ArtefactStats, t: ArtefactStats, succeeded: bool, duration_ms: u64)
    requires
        s.total_generated == s.successful + s.failed,
        succeeded ==> t == (ArtefactStats {
            total_generated: (s.total_generated + 1) as u64,
            successful: (s.successful + 1) as u64,
            failed: s.failed,
            total_generation_time_ms: (s.total_generation_time_ms + duration_ms) as u64,
        }),
        !succeeded ==> t == (ArtefactStats {
            total_generated: (s.total_generated + 1) as u64,
            successful: s.successful,
            failed: (s.failed + 1) as u64,
            total_generation_time_ms: s.total_generation_time_ms,
        }),
        s.total_generated < u64::MAX,
    ensures
        t.total_generated == t.successful + t.failed,
{
}

} // verus!
