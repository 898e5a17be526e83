//! Learn by doing: records workflows (start, actions, comments, stop) and
//! turns them into step-by-step tutorials.
use vstd::prelude::*;
use std::collections::VecDeque;
use crate::text::{
    join2, join3, join_strings, signed_decimal_string, spec_join, spec_signed_decimal, spec_strings,
    spec_to_lowercase, to_lowercase, decimal_string, spec_decimal,
};

verus! {

broadcast use vstd::std_specs::vecdeque::group_vec_dequeue_axioms;

/// What a recorded action did.
#[derive(Debug, Clone, PartialEq, Eq)]
pub enum ActionType {
    AppSwitch { from_app: String, to_app: String },
    KeyboardInput { keys: String },
    MouseClick { x: i32, y: i32, button: String },
    ToolUsed { tool_name: String },
    FileOperation { operation: String, file_path: String },
    Command { command: String },
    Comment { text: String },
}

impl ActionType {
    /// A copy of the action type.
    pub fn copy(&self) -> (r: ActionType)
        ensures
            r == *self,
    {
        match self {
            ActionType::AppSwitch { from_app, to_app } => ActionType::AppSwitch { from_app: from_app.clone(), to_app: to_app.clone() },
            ActionType::KeyboardInput { keys } => ActionType::KeyboardInput { keys: keys.clone() },
            ActionType::MouseClick { x, y, button } => ActionType::MouseClick { x: *x, y: *y, button: button.clone() },
            ActionType::ToolUsed { tool_name } => ActionType::ToolUsed { tool_name: tool_name.clone() },
            ActionType::FileOperation { operation, file_path } => ActionType::FileOperation { operation: operation.clone(), file_path: file_path.clone() },
            ActionType::Command { command } => ActionType::Command { command: command.clone() },
            ActionType::Comment { text } => ActionType::Comment { text: text.clone() },
        }
    }
}

/// A recorded action. `metadata` holds a JSON document.
#[derive(Debug, Clone)]
pub struct WorkflowAction {
    pub timestamp: i64,
    pub action_type: ActionType,
    pub app_name: String,
    pub description: String,
    pub screenshot_path: Option<String>,
    pub metadata: String,
}

fn copy_opt_string(o: &Option<String>) -> (r: Option<String>)
    ensures
        r == *o,
{
    match o {
        Some(s) => Some(s.clone()),
        None => None,
    }
}

impl WorkflowAction {
    /// A copy of the action.
    pub fn copy(&self) -> (r: WorkflowAction)
        ensures
            r == *self,
    {
        WorkflowAction {
            timestamp: self.timestamp,
            action_type: self.action_type.copy(),
            app_name: self.app_name.clone(),
            description: self.description.clone(),
            screenshot_path: copy_opt_string(&self.screenshot_path),
            metadata: self.metadata.clone(),
        }
    }
}

/// A recorded workflow.
#[derive(Debug, Clone)]
pub struct Workflow {
    pub id: String,
    pub title: String,
    pub description: String,
    pub start_time: i64,
    pub end_time: Option<i64>,
    pub duration_minutes: u32,
    pub actions: Vec<WorkflowAction>,
    pub tags: Vec<String>,
    pub app_name: String,
}

/// Two workflows hold the same values.
pub open spec fn spec_same_workflow(a: Workflow, b: Workflow) -> bool {
    &&& a.id == b.id
    &&& a.title == b.title
    &&& a.description == b.description
    &&& a.start_time == b.start_time
    &&& a.end_time == b.end_time
    &&& a.duration_minutes == b.duration_minutes
    &&& a.actions@ == b.actions@
    &&& a.tags@ == b.tags@
    &&& a.app_name == b.app_name
}

fn copy_actions(v: &Vec<WorkflowAction>) -> (r: Vec<WorkflowAction>)
    ensures
        r@ == v@,
{
    let mut r: Vec<WorkflowAction> = Vec::new();
    let mut i: usize = 0;
    while i < v.len()
        invariant
            0 <= i <= v@.len(),
            r@ == v@.take(i as int),
        decreases v@.len() - i,
    {
        r.push(v[i].copy());
        assert(r@ =~= v@.take(i + 1));
        i = i + 1;
    }
    assert(v@.take(v@.len() as int) =~= v@);
    r
}

fn copy_strings(v: &Vec<String>) -> (r: Vec<String>)
    ensures
        r@ == v@,
{
    let mut r: Vec<String> = Vec::new();
    let mut i: usize = 0;
    while i < v.len()
        invariant
            0 <= i <= v@.len(),
            r@ == v@.take(i as int),
        decreases v@.len() - i,
    {
        r.push(v[i].clone());
        assert(r@ =~= v@.take(i + 1));
        i = i + 1;
    }
    assert(v@.take(v@.len() as int) =~= v@);
    r
}

impl Workflow {
    /// A copy of the workflow.
    pub fn copy(&self) -> (r: Workflow)
        ensures
            spec_same_workflow(r, *self),
    {
        Workflow {
            id: self.id.clone(),
            title: self.title.clone(),
            description: self.description.clone(),
            start_time: self.start_time,
            end_time: self.end_time,
            duration_minutes: self.duration_minutes,
            actions: copy_actions(&self.actions),
            tags: copy_strings(&self.tags),
            app_name: self.app_name.clone(),
        }
    }
}

/// One step of a tutorial.
#[derive(Debug, Clone)]
pub struct TutorialStep {
    pub step_number: usize,
    pub title: String,
    pub description: String,
    pub screenshot_path: Option<String>,
    pub code_snippet: Option<String>,
    pub tips: Vec<String>,
}

/// A tutorial generated from a workflow.
#[derive(Debug, Clone)]
pub struct Tutorial {
    pub id: String,
    pub workflow_id: String,
    pub title: String,
    pub description: String,
    pub steps: Vec<TutorialStep>,
    pub estimated_duration: u32,
    pub difficulty: String,
    pub tags: Vec<String>,
    pub created_at: i64,
}

/// State of the recorder.
#[derive(Debug, Clone)]
pub struct RecordingState {
    pub is_recording: bool,
    pub current_workflow_id: Option<String>,
    pub actions_recorded: usize,
    pub recording_duration_seconds: u32,
}

/// Maximum number of buffered actions of a recording.
pub const MAX_BUFFERED_ACTIONS: usize = 1000;

/// Actions per tutorial step at most.
pub const MAX_STEP_ACTIONS: usize = 10;

/// Division rounding toward zero, as Rust's integer `/` does.
pub open spec fn spec_trunc_div(a: int, b: int) -> int {
    if a >= 0 { a / b } else { -((-a) / b) }
}

/// Whether an action is a comment.
pub open spec fn spec_is_comment(a: WorkflowAction) -> bool {
    a.action_type is Comment
}

/// Grouping of actions into steps, as it stands after a prefix of them:
/// the completed groups and the group under way. A group closes on a
/// comment or once it holds ten actions.
pub open spec fn spec_group_state(actions: Seq<WorkflowAction>) -> (Seq<Seq<WorkflowAction>>, Seq<WorkflowAction>)
    decreases actions.len(),
{
    if actions.len() == 0 {
        (Seq::empty(), Seq::empty())
    } else {
        let (gs, cur) = spec_group_state(actions.drop_last());
        let cur2 = cur.push(actions.last());
        if spec_is_comment(actions.last()) || cur2.len() >= MAX_STEP_ACTIONS {
            (gs.push(cur2), Seq::empty())
        } else {
            (gs, cur2)
        }
    }
}

/// The groups of actions that become tutorial steps (the last action closes
/// the last group).
pub open spec fn spec_groups(actions: Seq<WorkflowAction>) -> Seq<Seq<WorkflowAction>> {
    let (gs, cur) = spec_group_state(actions);
    if cur.len() > 0 { gs.push(cur) } else { gs }
}

/// Description of one action, if it has one.
pub open spec fn spec_action_description(a: WorkflowAction) -> Option<Seq<char>> {
    match a.action_type {
        ActionType::AppSwitch { to_app, .. } => Some("Open "@ + to_app@),
        ActionType::ToolUsed { tool_name } => Some("Use "@ + tool_name@),
        ActionType::FileOperation { operation, .. } => Some(operation@ + " file"@),
        ActionType::Command { command } => Some("Run: `"@ + command@ + "`"@),
        _ => None,
    }
}

/// Distinct descriptions of the actions, in order of first appearance.
pub open spec fn spec_descriptions(actions: Seq<WorkflowAction>) -> Seq<Seq<char>>
    decreases actions.len(),
{
    if actions.len() == 0 {
        Seq::empty()
    } else {
        let prev = spec_descriptions(actions.drop_last());
        match spec_action_description(actions.last()) {
            Some(d) => if prev.contains(d) { prev } else { prev.push(d) },
            None => prev,
        }
    }
}

/// The first comment text among the actions.
pub open spec fn spec_first_comment(actions: Seq<WorkflowAction>) -> Option<Seq<char>>
    decreases actions.len(),
{
    if actions.len() == 0 {
        None
    } else {
        match actions[0].action_type {
            ActionType::Comment { text } => Some(text@),
            _ => spec_first_comment(actions.drop_first()),
        }
    }
}

/// The first screenshot among the actions.
pub open spec fn spec_first_screenshot(actions: Seq<WorkflowAction>) -> Option<Seq<char>>
    decreases actions.len(),
{
    if actions.len() == 0 {
        None
    } else {
        match actions[0].screenshot_path {
            Some(p) => Some(p@),
            None => spec_first_screenshot(actions.drop_first()),
        }
    }
}

/// The first command among the actions.
pub open spec fn spec_first_command(actions: Seq<WorkflowAction>) -> Option<Seq<char>>
    decreases actions.len(),
{
    if actions.len() == 0 {
        None
    } else {
        match actions[0].action_type {
            ActionType::Command { command } => Some(command@),
            _ => spec_first_command(actions.drop_first()),
        }
    }
}

/// Tips for a group of actions.
pub open spec fn spec_tips(actions: Seq<WorkflowAction>) -> Seq<Seq<char>> {
    let a: Seq<Seq<char>> = if exists|i: int| 0 <= i < actions.len() && #[trigger] actions[i].action_type is KeyboardInput {
        seq!["💡 Use keyboard shortcuts to work faster"@]
    } else {
        Seq::empty()
    };
    if actions.len() > 15 { a.push("⚡ Consider automating repetitive tasks"@) } else { a }
}

/// Optional strings by their views.
pub open spec fn spec_opt(o: Option<String>) -> Option<Seq<char>> {
    match o {
        Some(s) => Some(s@),
        None => None,
    }
}

/// The step made of a group of actions.
pub open spec fn spec_step(step_number: nat, actions: Seq<WorkflowAction>, s: TutorialStep) -> bool {
    &&& s.step_number == step_number
    &&& s.title@ == match spec_first_comment(actions) {
        Some(t) => t,
        None => "Step "@ + spec_decimal(step_number),
    }
    &&& s.description@ == spec_join(spec_descriptions(actions), ", "@)
    &&& spec_opt(s.screenshot_path) == spec_first_screenshot(actions)
    &&& spec_opt(s.code_snippet) == spec_first_command(actions)
    &&& spec_strings(s.tips@) == spec_tips(actions)
}

/// Difficulty of a workflow from its number of actions.
pub open spec fn spec_difficulty(n: nat) -> Seq<char> {
    if n < 10 { "Beginner"@ } else if n < 30 { "Intermediate"@ } else { "Advanced"@ }
}

/// The description of an action.
fn action_description(a: &WorkflowAction) -> (r: Option<String>)
    ensures
        spec_opt(r) == spec_action_description(*a),
{
    match &a.action_type {
        ActionType::AppSwitch { to_app, .. } => Some(join2("Open ", to_app.as_str())),
        ActionType::ToolUsed { tool_name } => Some(join2("Use ", tool_name.as_str())),
        ActionType::FileOperation { operation, .. } => Some(join2(operation.as_str(), " file")),
        ActionType::Command { command } => Some(join3("Run: `", command.as_str(), "`")),
        _ => None,
    }
}

/// Whether `d` is among the strings.
fn contains_string(v: &Vec<String>, d: &String) -> (b: bool)
    ensures
        b == spec_strings(v@).contains(d@),
{
    let mut i: usize = 0;
    while i < v.len()
        invariant
            0 <= i <= v@.len(),
            forall|j: int| 0 <= j < i ==> v@[j]@ != d@,
        decreases v@.len() - i,
    {
        if v[i] == *d {
            assert(spec_strings(v@)[i as int] == d@);
            return true;
        }
        i = i + 1;
    }
    false
}

/// Describes a group of actions: the distinct descriptions joined with ", ".
pub fn describe_actions(actions: &[WorkflowAction]) -> (r: String)
    ensures
        r@ == spec_join(spec_descriptions(actions@), ", "@),
{
    let mut descs: Vec<String> = Vec::new();
    let mut i: usize = 0;
    while i < actions.len()
        invariant
            0 <= i <= actions@.len(),
            spec_strings(descs@) == spec_descriptions(actions@.take(i as int)),
        decreases actions@.len() - i,
    {
        proof {
            assert(actions@.take(i + 1).drop_last() =~= actions@.take(i as int));
        }
        match action_description(&actions[i]) {
            Some(d) => {
                if !contains_string(&descs, &d) {
                    let ghost before = spec_strings(descs@);
                    descs.push(d);
                    assert(spec_strings(descs@) =~= before.push(d@));
                }
            },
            None => {},
        }
        i = i + 1;
    }
    assert(actions@.take(actions@.len() as int) =~= actions@);
    join_strings(descs.as_slice(), ", ")
}

/// The tips of a group of actions.
pub fn generate_tips(actions: &[WorkflowAction]) -> (tips: Vec<String>)
    ensures
        spec_strings(tips@) == spec_tips(actions@),
{
    let mut tips: Vec<String> = Vec::new();
    let mut has_keys = false;
    let mut i: usize = 0;
    while i < actions.len()
        invariant
            0 <= i <= actions@.len(),
            has_keys == exists|j: int| 0 <= j < i && #[trigger] actions@[j].action_type is KeyboardInput,
        decreases actions@.len() - i,
    {
        if let ActionType::KeyboardInput { .. } = actions[i].action_type {
            has_keys = true;
        }
        i = i + 1;
    }
    if has_keys {
        tips.push(String::from_str("💡 Use keyboard shortcuts to work faster"));
    }
    if actions.len() > 15 {
        tips.push(String::from_str("⚡ Consider automating repetitive tasks"));
    }
    assert(spec_strings(tips@) =~= spec_tips(actions@));
    tips
}

/// Builds tutorial step number `step_number` from a group of actions.
pub fn create_step(step_number: usize, actions: &[WorkflowAction]) -> (s: TutorialStep)
    ensures
        spec_step(step_number as nat, actions@, s),
{
    let mut title: Option<String> = None;
    let mut screenshot: Option<String> = None;
    let mut code: Option<String> = None;
    let mut i: usize = actions.len();
    // Scan backwards so that the first occurrence wins.
    while i > 0
        invariant
            0 <= i <= actions@.len(),
            spec_opt(title) == spec_first_comment(actions@.skip(i as int)),
            spec_opt(screenshot) == spec_first_screenshot(actions@.skip(i as int)),
            spec_opt(code) == spec_first_command(actions@.skip(i as int)),
        decreases i,
    {
        i = i - 1;
        proof {
            assert(actions@.skip(i as int).drop_first() =~= actions@.skip(i + 1));
            assert(actions@.skip(i as int)[0] == actions@[i as int]);
        }
        let a = &actions[i];
        match &a.action_type {
            ActionType::Comment { text } => {
                title = Some(text.clone());
            },
            ActionType::Command { command } => {
                code = Some(command.clone());
            },
            _ => {},
        }
        match &a.screenshot_path {
            Some(p) => {
                screenshot = Some(p.clone());
            },
            None => {},
        }
    }
    assert(actions@.skip(0) =~= actions@);
    let title = match title {
        Some(t) => t,
        None => {
            let n = decimal_string(step_number as u64);
            join2("Step ", n.as_str())
        },
    };
    TutorialStep {
        step_number,
        title,
        description: describe_actions(actions),
        screenshot_path: screenshot,
        code_snippet: code,
        tips: generate_tips(actions),
    }
}

/// Groups the actions of a workflow into tutorial steps, numbered from 1.
pub fn group_into_steps(actions: &Vec<WorkflowAction>) -> (steps: Vec<TutorialStep>)
    ensures
        steps@.len() == spec_groups(actions@).len(),
        forall|k: int| 0 <= k < steps@.len() ==> spec_step((k + 1) as nat, spec_groups(actions@)[k], #[trigger] steps@[k]),
{
    let mut steps: Vec<TutorialStep> = Vec::new();
    let mut current: Vec<WorkflowAction> = Vec::new();
    let mut i: usize = 0;
    while i < actions.len()
        invariant
            0 <= i <= actions@.len(),
            steps@.len() == spec_group_state(actions@.take(i as int)).0.len(),
            current@ == spec_group_state(actions@.take(i as int)).1,
            current@.len() < MAX_STEP_ACTIONS,
            steps@.len() + current@.len() <= i,
            forall|k: int| 0 <= k < steps@.len() ==> spec_step((k + 1) as nat, spec_group_state(actions@.take(i as int)).0[k], #[trigger] steps@[k]),
        decreases actions@.len() - i,
    {
        proof {
            assert(actions@.take(i + 1).drop_last() =~= actions@.take(i as int));
            assert(actions@.take(i + 1).last() == actions@[i as int]);
        }
        let ghost gs = spec_group_state(actions@.take(i as int)).0;
        let a = actions[i].copy();
        let is_comment = match &a.action_type {
            ActionType::Comment { .. } => true,
            _ => false,
        };
        current.push(a);
        if is_comment || current.len() >= MAX_STEP_ACTIONS {
            let step = create_step(steps.len() + 1, current.as_slice());
            let ghost before = steps@;
            steps.push(step);
            proof {
                assert forall|k: int| 0 <= k < steps@.len() implies spec_step((k + 1) as nat, spec_group_state(actions@.take(i + 1)).0[k], #[trigger] steps@[k]) by {
                    if k < before.len() {
                        assert(steps@[k] == before[k]);
                    }
                }
            }
            current = Vec::new();
        }
        i = i + 1;
    }
    assert(actions@.take(actions@.len() as int) =~= actions@);
    if current.len() > 0 {
        let step = create_step(steps.len() + 1, current.as_slice());
        let ghost before = steps@;
        steps.push(step);
        proof {
            assert forall|k: int| 0 <= k < steps@.len() implies spec_step((k + 1) as nat, spec_groups(actions@)[k], #[trigger] steps@[k]) by {
                if k < before.len() {
                    assert(steps@[k] == before[k]);
                }
            }
        }
    }
    steps
}

/// Difficulty of a workflow from its number of actions.
pub fn calculate_difficulty(workflow: &Workflow) -> (d: String)
    ensures
        d@ == spec_difficulty(workflow.actions@.len()),
{
    let n = workflow.actions.len();
    if n < 10 {
        String::from_str("Beginner")
    } else if n < 30 {
        String::from_str("Intermediate")
    } else {
        String::from_str("Advanced")
    }
}

/// A lower-case hexadecimal digit.
pub open spec fn spec_hex_digit(d: u32) -> char {
    if d < 10 { (48 + d) as char } else { (87 + d) as char }
}

/// How `serde_json` writes one character inside a string: quote and
/// backslash behind a backslash, the usual short escapes for backspace,
/// tab, line feed, form feed and carriage return, `\u00XX` (lower-case hex)
/// for the other control characters, and every other character as it is.
pub open spec fn spec_json_escape(c: char) -> Seq<char> {
    let n = c as u32;
    if c == '"' {
        seq!['\\', '"']
    } else if c == '\\' {
        seq!['\\', '\\']
    } else if n == 8 {
        seq!['\\', 'b']
    } else if n == 9 {
        seq!['\\', 't']
    } else if n == 10 {
        seq!['\\', 'n']
    } else if n == 12 {
        seq!['\\', 'f']
    } else if n == 13 {
        seq!['\\', 'r']
    } else if n < 32 {
        seq!['\\', 'u', '0', '0', spec_hex_digit(n / 16), spec_hex_digit(n % 16)]
    } else {
        seq![c]
    }
}

/// The characters of a string, each escaped as `serde_json` writes them.
pub open spec fn spec_json_escaped(s: Seq<char>) -> Seq<char>
    decreases s.len(),
{
    if s.len() == 0 {
        Seq::empty()
    } else {
        spec_json_escaped(s.drop_last()) + spec_json_escape(s.last())
    }
}

/// The JSON string literal of a string, as `serde_json` writes it: the
/// escaped characters between two quotes.
pub open spec fn spec_json_string(s: Seq<char>) -> Seq<char> {
    seq!['"'] + spec_json_escaped(s) + seq!['"']
}

/// A string that JSON writes as it is: no quote, no backslash and no
/// control character (below U+0020).
pub open spec fn spec_json_plain(s: Seq<char>) -> bool {
    forall|i: int| 0 <= i < s.len() ==> #[trigger] s[i] != '"' && s[i] != '\\' && (s[i] as u32) >= 32
}

/// A plain string is written between quotes as it is.
pub proof fn lemma_json_plain(s: Seq<char>)
    requires
        spec_json_plain(s),
    ensures
        spec_json_escaped(s) == s,
    decreases s.len(),
{
    if s.len() > 0 {
        let init = s.drop_last();
        assert(spec_json_plain(init)) by {
            assert forall|i: int| 0 <= i < init.len() implies #[trigger] init[i] != '"' && init[i] != '\\' && (init[i] as u32) >= 32 by {
                assert(init[i] == s[i]);
            }
        }
        lemma_json_plain(init);
        assert(s[s.len() - 1] == s.last());
        assert(s =~= init.push(s.last()));
        assert(spec_json_escape(s.last()) =~= seq![s.last()]);
    }
}

/// Trusted: `serde_json::to_string` on a string (serialising a string
/// cannot fail); claims that the result is the string's JSON literal as
/// stated by `spec_json_string` (serde_json's escape table).
#[verifier::external_body]
fn json_string(s: &str) -> (r: String)
    ensures
        r@ == spec_json_string(s@),
{
    serde_json::to_string(s).unwrap_or_default()
}

/// The current time in whole seconds since the epoch, as an `i64` (0 when
/// the clock reads a time before the epoch, `i64::MAX` past its range).
pub(crate) fn now_timestamp() -> (t: i64)
    ensures
        t >= 0,
{
    let s = crate::clock::unix_time_secs();
    if s <= 0x7fff_ffff_ffff_ffffu64 { s as i64 } else { i64::MAX }
}

/// Records workflows and generates tutorials.
pub struct LearnManager {
    is_recording: bool,
    current_workflow: Option<Workflow>,
    workflows: Vec<Workflow>,
    tutorials: Vec<Tutorial>,
    action_buffer: VecDeque<WorkflowAction>,
    max_workflows: usize,
}

/// Starting a recording at `now` (see `LearnManager::start_recording_at`).
pub open spec fn spec_start_recording(old: LearnManager, new: LearnManager, title: &str, app_name: &str, now: i64, r: Result<String, String>) -> bool {
    &&& new.wf()
    &&& old.recording() ==> {
        &&& r matches Err(m) && m@ == "Already recording a workflow"@
        &&& new.recording() && new.current() == old.current()
        &&& new.buffer() == old.buffer()
    }
    &&& !old.recording() ==> {
        &&& r matches Ok(id) && id@ == "workflow_"@ + spec_signed_decimal(now as int)
        &&& new.recording()
        &&& new.current() matches Some(w) && w.id@ == "workflow_"@ + spec_signed_decimal(now as int)
            && w.title@ == title@ && w.description@.len() == 0 && w.start_time == now && w.end_time is None
            && w.duration_minutes == 0 && w.actions@.len() == 0 && w.tags@.len() == 0 && w.app_name@ == app_name@
        &&& new.buffer().len() == 0
    }
    &&& new.workflows() == old.workflows()
    &&& new.tutorials() == old.tutorials()
    &&& new.max() == old.max()
}

/// Adding a comment at `now` (see `LearnManager::add_comment_at`).
pub open spec fn spec_add_comment(old: LearnManager, new: LearnManager, comment: &str, now: i64, r: Result<(), String>) -> bool {
    &&& new.wf()
    &&& !old.recording() ==> (r matches Err(m) && m@ == "Not recording"@ && new.buffer() == old.buffer())
    &&& old.recording() ==> {
        &&& r is Ok
        &&& new.buffer().len() > 0
        &&& new.buffer().last().timestamp == now
        &&& new.buffer().last().action_type matches ActionType::Comment { text } && text@ == comment@
        &&& new.buffer().last().app_name == old.current().unwrap().app_name
        &&& new.buffer().last().description@ == "💬 "@ + comment@
        &&& new.buffer().last().screenshot_path is None
        &&& new.buffer().last().metadata@ == "{\"comment\":"@ + spec_json_string(comment@) + "}"@
        &&& spec_json_plain(comment@) ==> new.buffer().last().metadata@
            == "{\"comment\":"@ + seq!['"'] + comment@ + seq!['"'] + "}"@
    }
    &&& new.recording() == old.recording()
    &&& new.current() == old.current()
    &&& new.workflows() == old.workflows()
    &&& new.tutorials() == old.tutorials()
    &&& new.max() == old.max()
}

/// Stopping the recording at `now` (see `LearnManager::stop_recording_at`).
pub open spec fn spec_stop_recording(old: LearnManager, new: LearnManager, now: i64, r: Result<Workflow, String>) -> bool {
    &&& !old.recording() ==> {
        &&& r matches Err(m) && m@ == "Not currently recording"@
        &&& new.workflows() == old.workflows()
        &&& new.buffer() == old.buffer()
        &&& !new.recording()
    }
    &&& old.recording() ==> {
        let c = old.current().unwrap();
        let kept = if old.workflows().len() >= old.max() { old.workflows().drop_first() } else { old.workflows() };
        &&& r matches Ok(w) && {
            &&& w.id == c.id && w.title == c.title && w.description == c.description
            &&& w.start_time == c.start_time && w.app_name == c.app_name && w.tags@ == c.tags@
            &&& w.end_time == Some(now)
            &&& w.duration_minutes == (spec_trunc_div(now - c.start_time, 60) as u32)
            &&& w.actions@ == old.buffer()
            &&& new.workflows().len() == kept.len() + 1
            &&& new.workflows().take(kept.len() as int) == kept
            &&& spec_same_workflow(new.workflows().last(), w)
        }
        &&& !new.recording()
        &&& new.current() is None
        &&& new.buffer().len() == 0
    }
    &&& new.tutorials() == old.tutorials()
    &&& new.max() == old.max()
    &&& new.wf()
}

/// Generating the tutorial of a workflow at `now` (see `LearnManager::generate_tutorial_at`).
pub open spec fn spec_generate_tutorial(old: LearnManager, new: LearnManager, workflow_id: &str, now: i64, r: Result<Tutorial, String>) -> bool {
    &&& new.wf()
    &&& match r {
        Err(m) => (m@ == "Workflow not found"@)
            && (forall|k: int| 0 <= k < old.workflows().len() ==> #[trigger] old.workflows()[k].id@ != workflow_id@)
            && new.tutorials() == old.tutorials(),
        Ok(t) => exists|k: int| 0 <= k < old.workflows().len() && {
            let w = #[trigger] old.workflows()[k];
            &&& w.id@ == workflow_id@
            &&& forall|k2: int| 0 <= k2 < k ==> old.workflows()[k2].id@ != workflow_id@
            &&& t.id@ == "tutorial_"@ + spec_signed_decimal(now as int)
            &&& t.workflow_id == w.id
            &&& t.title == w.title
            &&& t.description@ == "Learn how to "@ + spec_to_lowercase(w.title@)
            &&& t.steps@.len() == spec_groups(w.actions@).len()
            &&& forall|s: int| 0 <= s < t.steps@.len() ==> spec_step((s + 1) as nat, spec_groups(w.actions@)[s], #[trigger] t.steps@[s])
            &&& t.estimated_duration == w.duration_minutes
            &&& t.difficulty@ == spec_difficulty(w.actions@.len())
            &&& t.tags@ == w.tags@
            &&& t.created_at == now
        } && new.tutorials().len() == old.tutorials().len() + 1,
    }
    &&& new.workflows() == old.workflows()
    &&& new.recording() == old.recording()
    &&& new.current() == old.current()
    &&& new.buffer() == old.buffer()
    &&& new.max() == old.max()
}

impl LearnManager {
    /// The recorder is consistent: it records exactly when a workflow is
    /// under way, and buffers at most 1000 actions.
    pub open spec fn wf(&self) -> bool {
        &&& self.recording() == self.current() is Some
        &&& self.buffer().len() <= MAX_BUFFERED_ACTIONS
    }

    pub closed spec fn recording(&self) -> bool {
        self.is_recording
    }

    pub closed spec fn current(&self) -> Option<Workflow> {
        self.current_workflow
    }

    pub closed spec fn workflows(&self) -> Seq<Workflow> {
        self.workflows@
    }

    pub closed spec fn tutorials(&self) -> Seq<Tutorial> {
        self.tutorials@
    }

    pub closed spec fn buffer(&self) -> Seq<WorkflowAction> {
        self.action_buffer@
    }

    pub closed spec fn max(&self) -> usize {
        self.max_workflows
    }

    /// A recorder that keeps at most `max_workflows` workflows.
    pub fn new(max_workflows: usize) -> (m: Self)
        ensures
            m.wf(),
            !m.recording(),
            m.current() is None,
            m.workflows().len() == 0,
            m.tutorials().len() == 0,
            m.buffer().len() == 0,
            m.max() == max_workflows,
    {
        LearnManager {
            is_recording: false,
            current_workflow: None,
            workflows: Vec::new(),
            tutorials: Vec::new(),
            action_buffer: VecDeque::new(),
            max_workflows,
        }
    }

    /// Starts recording a workflow at time `now`; refused while recording.
    pub fn start_recording_at(&mut self, title: &str, app_name: &str, now: i64) -> (r: Result<String, String>)
        requires
            old(self).wf(),
        ensures
            spec_start_recording(*old(self), *final(self), title, app_name, now, r),
    {
        if self.is_recording {
            return Err(String::from_str("Already recording a workflow"));
        }
        let n = signed_decimal_string(now);
        let id = join2("workflow_", n.as_str());
        let workflow = Workflow {
            id: id.clone(),
            title: String::from_str(title),
            description: String::new(),
            start_time: now,
            end_time: None,
            duration_minutes: 0,
            actions: Vec::new(),
            tags: Vec::new(),
            app_name: String::from_str(app_name),
        };
        self.action_buffer = VecDeque::new();
        self.current_workflow = Some(workflow);
        self.is_recording = true;
        Ok(id)
    }

    /// Starts recording a workflow, reading the clock.
    pub fn start_recording(&mut self, title: &str, app_name: &str) -> (r: Result<String, String>)
        requires
            old(self).wf(),
        ensures
            exists|now: i64| #[trigger] spec_start_recording(*old(self), *final(self), title, app_name, now, r),
    {
        let now = now_timestamp();
        self.start_recording_at(title, app_name, now)
    }

    /// Records an action while recording (the buffer keeps the last 1000).
    pub fn record_action(&mut self, action: WorkflowAction)
        requires
            old(self).wf(),
        ensures
            final(self).wf(),
            final(self).recording() == old(self).recording(),
            final(self).current() == old(self).current(),
            final(self).workflows() == old(self).workflows(),
            final(self).tutorials() == old(self).tutorials(),
            final(self).max() == old(self).max(),
            !old(self).recording() ==> final(self).buffer() == old(self).buffer(),
            old(self).recording() ==> final(self).buffer() == {
                let b = old(self).buffer().push(action);
                if b.len() > MAX_BUFFERED_ACTIONS { b.drop_first() } else { b }
            },
    {
        if !self.is_recording {
            return;
        }
        let mut buffer = VecDeque::new();
        std::mem::swap(&mut buffer, &mut self.action_buffer);
        let ghost before = buffer@;
        buffer.push_back(action);
        if buffer.len() > MAX_BUFFERED_ACTIONS {
            buffer.pop_front();
        }
        assert(buffer@ =~= {
            let b = before.push(action);
            if b.len() > MAX_BUFFERED_ACTIONS { b.drop_first() } else { b }
        });
        self.action_buffer = buffer;
    }

    /// Adds a comment to the recording at time `now`; refused when not recording.
    pub fn add_comment_at(&mut self, comment: &str, now: i64) -> (r: Result<(), String>)
        requires
            old(self).wf(),
        ensures
            spec_add_comment(*old(self), *final(self), comment, now, r),
    {
        if !self.is_recording {
            return Err(String::from_str("Not recording"));
        }
        let app_name = match &self.current_workflow {
            Some(w) => w.app_name.clone(),
            None => String::new(),
        };
        let quoted = json_string(comment);
        let action = WorkflowAction {
            timestamp: now,
            action_type: ActionType::Comment { text: String::from_str(comment) },
            app_name,
            description: join2("💬 ", comment),
            screenshot_path: None,
            metadata: join3("{\"comment\":", quoted.as_str(), "}"),
        };
        proof {
            if spec_json_plain(comment@) {
                lemma_json_plain(comment@);
            }
        }
        assert(spec_json_plain(comment@) ==> action.metadata@
            =~= "{\"comment\":"@ + seq!['"'] + comment@ + seq!['"'] + "}"@);
        self.record_action(action);
        Ok(())
    }

    /// Adds a comment to the recording, reading the clock.
    pub fn add_comment(&mut self, comment: &str) -> (r: Result<(), String>)
        requires
            old(self).wf(),
        ensures
            exists|now: i64| #[trigger] spec_add_comment(*old(self), *final(self), comment, now, r),
    {
        let now = now_timestamp();
        self.add_comment_at(comment, now)
    }

    /// Stops the recording at time `now`: the workflow gets its end time,
    /// its duration in whole minutes and the buffered actions, and is kept
    /// (the oldest kept workflow is dropped once `max_workflows` are kept).
    pub fn stop_recording_at(&mut self, now: i64) -> (r: Result<Workflow, String>)
        requires
            old(self).wf(),
            old(self).recording() ==> {
                &&& old(self).max() > 0
                &&& i64::MIN <= now - old(self).current().unwrap().start_time <= i64::MAX
            },
        ensures
            spec_stop_recording(*old(self), *final(self), now, r),
    {
        if !self.is_recording {
            return Err(String::from_str("Not currently recording"));
        }
        let mut current = None;
        std::mem::swap(&mut current, &mut self.current_workflow);
        self.is_recording = false;
        let mut workflow = match current {
            Some(w) => w,
            None => {
                return Err(String::from_str("No active workflow"));
            },
        };
        let diff: i64 = now - workflow.start_time;
        let minutes: i64 = if diff >= 0 { diff / 60 } else { -((-(diff as i128)) / 60) as i64 };
        workflow.end_time = Some(now);
        workflow.duration_minutes = minutes as u32;
        let mut buffer = VecDeque::new();
        std::mem::swap(&mut buffer, &mut self.action_buffer);
        let mut actions: Vec<WorkflowAction> = Vec::new();
        let ghost buf = buffer@;
        let mut i: usize = 0;
        let n = buffer.len();
        while i < n
            invariant
                n == buf.len(),
                buffer@ == buf,
                0 <= i <= n,
                actions@ == buf.take(i as int),
            decreases n - i,
        {
            actions.push(buffer[i].copy());
            assert(actions@ =~= buf.take(i + 1));
            i = i + 1;
        }
        assert(buf.take(n as int) =~= buf);
        workflow.actions = actions;
        let mut workflows = Vec::new();
        std::mem::swap(&mut workflows, &mut self.workflows);
        let ghost old_wf = workflows@;
        if workflows.len() >= self.max_workflows {
            workflows.remove(0);
            assert(workflows@ =~= old_wf.drop_first());
        }
        let ghost kept = workflows@;
        workflows.push(workflow.copy());
        assert(workflows@.take(kept.len() as int) =~= kept);
        self.workflows = workflows;
        Ok(workflow)
    }

    /// Stops the recording, reading the clock.
    pub fn stop_recording(&mut self) -> (r: Result<Workflow, String>)
        requires
            old(self).wf(),
            old(self).max() > 0,
        ensures
            (r matches Err(m) && m@ == "Clock out of range"@ && *final(self) == *old(self))
                || exists|now: i64| #[trigger] spec_stop_recording(*old(self), *final(self), now, r),
    {
        let now = now_timestamp();
        if self.is_recording {
            let start = match &self.current_workflow {
                Some(w) => w.start_time,
                None => 0,
            };
            if (now >= 0 && start < 0 && now > i64::MAX + start) || (now < 0 && start > 0 && now < i64::MIN + start) {
                return Err(String::from_str("Clock out of range"));
            }
        }
        self.stop_recording_at(now)
    }

    /// Position of the first workflow with the given id.
    fn find_workflow(&self, workflow_id: &str) -> (r: Option<usize>)
        ensures
            match r {
                Some(k) => k < self.workflows().len() && self.workflows()[k as int].id@ == workflow_id@
                    && forall|k2: int| 0 <= k2 < k ==> #[trigger] self.workflows()[k2].id@ != workflow_id@,
                None => forall|k2: int| 0 <= k2 < self.workflows().len() ==> #[trigger] self.workflows()[k2].id@ != workflow_id@,
            },
    {
        let id = String::from_str(workflow_id);
        let mut k: usize = 0;
        while k < self.workflows.len()
            invariant
                0 <= k <= self.workflows@.len(),
                id@ == workflow_id@,
                forall|k2: int| 0 <= k2 < k ==> #[trigger] self.workflows@[k2].id@ != workflow_id@,
            decreases self.workflows@.len() - k,
        {
            if self.workflows[k].id == id {
                return Some(k);
            }
            k = k + 1;
        }
        None
    }

    /// Generates the tutorial of a recorded workflow at time `now`.
    pub fn generate_tutorial_at(&mut self, workflow_id: &str, now: i64) -> (r: Result<Tutorial, String>)
        requires
            old(self).wf(),
        ensures
            spec_generate_tutorial(*old(self), *final(self), workflow_id, now, r),
    {
        let found = self.find_workflow(workflow_id);
        if found.is_none() {
            return Err(String::from_str("Workflow not found"));
        }
        let k = found.unwrap();
        let w = &self.workflows[k];
        let steps = group_into_steps(&w.actions);
        let n = signed_decimal_string(now);
        let lower = to_lowercase(w.title.as_str());
        let t = Tutorial {
            id: join2("tutorial_", n.as_str()),
            workflow_id: w.id.clone(),
            title: w.title.clone(),
            description: join2("Learn how to ", lower.as_str()),
            steps,
            estimated_duration: w.duration_minutes,
            difficulty: calculate_difficulty(w),
            tags: copy_strings(&w.tags),
            created_at: now,
        };
        let copy = Tutorial {
            id: t.id.clone(),
            workflow_id: t.workflow_id.clone(),
            title: t.title.clone(),
            description: t.description.clone(),
            steps: group_into_steps(&w.actions),
            estimated_duration: t.estimated_duration,
            difficulty: t.difficulty.clone(),
            tags: copy_strings(&t.tags),
            created_at: t.created_at,
        };
        let mut tutorials = Vec::new();
        std::mem::swap(&mut tutorials, &mut self.tutorials);
        tutorials.push(copy);
        self.tutorials = tutorials;
        proof {
            let w0 = old(self).workflows()[k as int];
            assert(self.workflows@ == old(self).workflows());
            assert(w0.id@ == workflow_id@);
            assert(spec_strings(t.tags@) == spec_strings(w0.tags@));
        }
        Ok(t)
    }

    /// Generates the tutorial of a recorded workflow, reading the clock.
    pub fn generate_tutorial(&mut self, workflow_id: &str) -> (r: Result<Tutorial, String>)
        requires
            old(self).wf(),
        ensures
            exists|now: i64| #[trigger] spec_generate_tutorial(*old(self), *final(self), workflow_id, now, r),
    {
        let now = now_timestamp();
        self.generate_tutorial_at(workflow_id, now)
    }

    /// State of the recorder at time `now` (the duration in seconds).
    pub fn get_recording_state_at(&self, now: i64) -> (s: RecordingState)
        requires
            self.wf(),
            self.current() matches Some(w) ==> 0 <= now - w.start_time <= u32::MAX,
        ensures
            match self.current() {
                Some(w) => s.is_recording && (s.current_workflow_id matches Some(id) && id@ == w.id@)
                    && s.actions_recorded == self.buffer().len() && s.recording_duration_seconds == now - w.start_time,
                None => !s.is_recording && s.current_workflow_id is None && s.actions_recorded == 0 && s.recording_duration_seconds == 0,
            },
    {
        match &self.current_workflow {
            Some(w) => RecordingState {
                is_recording: true,
                current_workflow_id: Some(w.id.clone()),
                actions_recorded: self.action_buffer.len(),
                recording_duration_seconds: (now - w.start_time) as u32,
            },
            None => RecordingState { is_recording: false, current_workflow_id: None, actions_recorded: 0, recording_duration_seconds: 0 },
        }
    }

    /// Copies of the recorded workflows.
    pub fn get_workflows(&self) -> (v: Vec<Workflow>)
        ensures
            v@.len() == self.workflows().len(),
            forall|k: int| 0 <= k < v@.len() ==> spec_same_workflow(#[trigger] v@[k], self.workflows()[k]),
    {
        let mut v: Vec<Workflow> = Vec::new();
        let mut i: usize = 0;
        while i < self.workflows.len()
            invariant
                0 <= i <= self.workflows@.len(),
                v@.len() == i,
                forall|k: int| 0 <= k < i ==> spec_same_workflow(#[trigger] v@[k], self.workflows@[k]),
            decreases self.workflows@.len() - i,
        {
            v.push(self.workflows[i].copy());
            i = i + 1;
        }
        v
    }

    /// Number of generated tutorials.
    pub fn tutorial_count(&self) -> (n: usize)
        ensures
            n == self.tutorials().len(),
    {
        self.tutorials.len()
    }
}

} // verus!
