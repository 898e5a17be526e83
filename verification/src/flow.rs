//! The user's flow state, shown by the ambient light: deep work, normal, or
//! blocked.
use vstd::prelude::*;
use crate::context::Context;

verus! {

/// A flow state with the confidence in it (in hundredths).
#[derive(Debug, Clone)]
pub struct FlowStateData {
    pub flow_state: String,
    pub confidence_percent: u32,
    pub typing_speed: Option<u32>,
    pub focus_score: Option<u32>,
}

/// The flow state of a context: `deep` when active in an application (idle
/// under 5 s), `blocked` when idle over 30 s, `normal` otherwise.
pub open spec fn spec_flow_state(app_name: Seq<char>, idle_ms: u64) -> Seq<char> {
    if idle_ms < 5000 && app_name.len() > 0 {
        "deep"@
    } else if idle_ms > 30000 {
        "blocked"@
    } else {
        "normal"@
    }
}

/// Confidence (in hundredths) in the flow state: 90 when idle under 5 s,
/// 95 when idle over 60 s, 60 otherwise.
pub open spec fn spec_flow_confidence(idle_ms: u64) -> u32 {
    if idle_ms < 5000 { 90 } else if idle_ms > 60000 { 95 } else { 60 }
}

/// The flow state of a context (see `spec_flow_state`).
pub fn detect_state(ctx: &Context) -> (s: String)
    ensures
        s@ == spec_flow_state(ctx.app.name@, ctx.idle_ms),
{
    if ctx.idle_ms < 5000 && ctx.app.name.as_str().unicode_len() > 0 {
        return String::from_str("deep");
    }
    if ctx.idle_ms > 30000 {
        return String::from_str("blocked");
    }
    String::from_str("normal")
}

/// Confidence (in hundredths) in the flow state of a context.
pub fn calculate_confidence(ctx: &Context) -> (c: u32)
    ensures
        c == spec_flow_confidence(ctx.idle_ms),
{
    if ctx.idle_ms < 5000 {
        90
    } else if ctx.idle_ms > 60000 {
        95
    } else {
        60
    }
}

/// The flow state of the last context, with its confidence; typing speed
/// and focus score are not measured.
pub fn flow_state_of(ctx: &Context) -> (d: FlowStateData)
    ensures
        d.flow_state@ == spec_flow_state(ctx.app.name@, ctx.idle_ms),
        d.confidence_percent == spec_flow_confidence(ctx.idle_ms),
        d.typing_speed is None,
        d.focus_score is None,
{
    FlowStateData {
        flow_state: detect_state(ctx),
        confidence_percent: calculate_confidence(ctx),
        typing_speed: None,
        focus_score: None,
    }
}

/// The flow state is deep only while the user has been idle under five
/// seconds in some application; idle from five to thirty seconds is normal,
/// and idle beyond thirty seconds is blocked.
pub proof fn lemma_flow_state_by_idle(app_name: Seq<char>, idle_ms: u64)
    ensures
        spec_flow_state(app_name, idle_ms) == "deep"@ <==> (idle_ms < 5000 && app_name.len() > 0),
        5000 <= idle_ms <= 30000 ==> spec_flow_state(app_name, idle_ms) == "normal"@,
        idle_ms > 30000 ==> spec_flow_state(app_name, idle_ms) == "blocked"@,
{
    reveal_strlit("deep");
    reveal_strlit("normal");
    reveal_strlit("blocked");
    assert("deep"@.len() != "normal"@.len());
    assert("deep"@.len() != "blocked"@.len());
}

/// The confidence in the flow state is 90 while the user has been idle
/// under five seconds, 95 beyond a minute, and 60 in between.
pub proof fn lemma_flow_confidence_by_idle(idle_ms: u64)
    ensures
        idle_ms < 5000 ==> spec_flow_confidence(idle_ms) == 90,
        5000 <= idle_ms <= 60000 ==> spec_flow_confidence(idle_ms) == 60,
        idle_ms > 60000 ==> spec_flow_confidence(idle_ms) == 95,
{
}

} // verus!
