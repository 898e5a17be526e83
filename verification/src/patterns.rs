//! Workflow patterns: action signatures, sequence matching, pattern names
//! and tags.
use vstd::prelude::*;
use std::collections::HashMap;
use crate::text::{chars_of, decimal_string, join2, join3, spec_decimal, spec_strings};

verus! {

/// Kind of a user action.
#[derive(Debug, Clone, PartialEq, Eq, Hash)]
pub enum ActionType {
    AppSwitch,
    WindowFocus,
    FileOpen,
    FileSave,
    Typing,
    Click,
    Scroll,
    Copy,
    Paste,
    Command,
    Custom(String),
}

/// Two action types are the same kind (custom kinds by their names).
pub open spec fn spec_same_type(a: ActionType, b: ActionType) -> bool {
    match (a, b) {
        (ActionType::Custom(x), ActionType::Custom(y)) => x@ == y@,
        (ActionType::Custom(_), _) => false,
        (_, ActionType::Custom(_)) => false,
        _ => a == b,
    }
}

impl ActionType {
    /// Whether two action types are the same kind.
    pub fn same_as(&self, other: &ActionType) -> (b: bool)
        ensures
            b == spec_same_type(*self, *other),
    {
        match (self, other) {
            (ActionType::Custom(x), ActionType::Custom(y)) => *x == *y,
            (ActionType::Custom(_), _) => false,
            (_, ActionType::Custom(_)) => false,
            (ActionType::AppSwitch, ActionType::AppSwitch) => true,
            (ActionType::WindowFocus, ActionType::WindowFocus) => true,
            (ActionType::FileOpen, ActionType::FileOpen) => true,
            (ActionType::FileSave, ActionType::FileSave) => true,
            (ActionType::Typing, ActionType::Typing) => true,
            (ActionType::Click, ActionType::Click) => true,
            (ActionType::Scroll, ActionType::Scroll) => true,
            (ActionType::Copy, ActionType::Copy) => true,
            (ActionType::Paste, ActionType::Paste) => true,
            (ActionType::Command, ActionType::Command) => true,
            _ => false,
        }
    }

    /// A copy of the action type.
    pub fn copy(&self) -> (r: ActionType)
        ensures
            r == *self,
    {
        match self {
            ActionType::AppSwitch => ActionType::AppSwitch,
            ActionType::WindowFocus => ActionType::WindowFocus,
            ActionType::FileOpen => ActionType::FileOpen,
            ActionType::FileSave => ActionType::FileSave,
            ActionType::Typing => ActionType::Typing,
            ActionType::Click => ActionType::Click,
            ActionType::Scroll => ActionType::Scroll,
            ActionType::Copy => ActionType::Copy,
            ActionType::Paste => ActionType::Paste,
            ActionType::Command => ActionType::Command,
            ActionType::Custom(s) => ActionType::Custom(s.clone()),
        }
    }
}

/// An action of the user.
#[derive(Debug, Clone)]
pub struct UserAction {
    pub app_name: String,
    pub action_type: ActionType,
    pub window_title: Option<String>,
    pub timestamp: i64,
    pub context: HashMap<String, String>,
}

/// What identifies an action in a workflow.
#[derive(Debug, Clone, Hash)]
pub struct ActionSignature {
    pub app_name: String,
    pub action_type: ActionType,
    /// The window title, reduced to `*.ext` when it has an extension.
    pub window_pattern: Option<String>,
}

/// Position of the last `.` of a title.
pub open spec fn spec_last_dot(t: Seq<char>) -> Option<int>
    decreases t.len(),
{
    if t.len() == 0 {
        None
    } else if t.last() == '.' {
        Some(t.len() - 1)
    } else {
        spec_last_dot(t.drop_last())
    }
}

/// The window pattern of a title: `*` and the extension from its last `.`
/// on (e.g. "file.rs" gives "*.rs"), or the title itself.
pub open spec fn spec_window_pattern(t: Seq<char>) -> Seq<char> {
    match spec_last_dot(t) {
        Some(p) => "*"@ + t.skip(p),
        None => t,
    }
}

/// The window pattern of a title.
pub fn window_pattern(title: &str) -> (r: String)
    ensures
        r@ == spec_window_pattern(title@),
{
    let v = chars_of(title);
    let n = v.len();
    let mut i: usize = n;
    assert(title@.take(n as int) =~= title@);
    while i > 0 && v[i - 1] != '.'
        invariant
            v@ == title@,
            n == title@.len(),
            0 <= i <= n,
            spec_last_dot(title@) == spec_last_dot(title@.take(i as int)),
        decreases i,
    {
        assert(title@.take(i as int).drop_last() =~= title@.take(i - 1));
        i = i - 1;
    }
    if i == 0 {
        assert(title@.take(0) =~= Seq::<char>::empty());
        String::from_str(title)
    } else {
        assert(spec_last_dot(title@.take(i as int)) == Some(i - 1));
        let ext = title.substring_char(i - 1, n);
        assert(title@.subrange(i - 1, n as int) =~= title@.skip(i - 1));
        join2("*", ext)
    }
}

impl ActionSignature {
    /// The signature of an action.
    pub fn from_action(action: &UserAction) -> (s: ActionSignature)
        ensures
            s.app_name@ == action.app_name@,
            s.action_type == action.action_type,
            match action.window_title {
                Some(t) => s.window_pattern matches Some(p) && p@ == spec_window_pattern(t@),
                None => s.window_pattern is None,
            },
    {
        ActionSignature {
            app_name: action.app_name.clone(),
            action_type: action.action_type.copy(),
            window_pattern: match &action.window_title {
                Some(t) => Some(window_pattern(t.as_str())),
                None => None,
            },
        }
    }

    pub open spec fn spec_action_type_str(&self) -> Seq<char> {
        match self.action_type {
            ActionType::AppSwitch => "switch to"@,
            ActionType::WindowFocus => "focus"@,
            ActionType::FileOpen => "open file"@,
            ActionType::FileSave => "save file"@,
            ActionType::Typing => "type"@,
            ActionType::Click => "click"@,
            ActionType::Scroll => "scroll"@,
            ActionType::Copy => "copy"@,
            ActionType::Paste => "paste"@,
            ActionType::Command => "run command"@,
            ActionType::Custom(s) => s@,
        }
    }

    /// The action as a verb phrase ("switch to", "open file", ...).
    pub fn action_type_str(&self) -> (s: &str)
        ensures
            s@ == self.spec_action_type_str(),
    {
        match &self.action_type {
            ActionType::AppSwitch => "switch to",
            ActionType::WindowFocus => "focus",
            ActionType::FileOpen => "open file",
            ActionType::FileSave => "save file",
            ActionType::Typing => "type",
            ActionType::Click => "click",
            ActionType::Scroll => "scroll",
            ActionType::Copy => "copy",
            ActionType::Paste => "paste",
            ActionType::Command => "run command",
            ActionType::Custom(s) => s.as_str(),
        }
    }
}

/// Two signatures match: same application and same kind of action (the
/// window pattern is not compared).
pub open spec fn spec_same_sig(a: ActionSignature, b: ActionSignature) -> bool {
    a.app_name@ == b.app_name@ && spec_same_type(a.action_type, b.action_type)
}

/// Two sequences of signatures match element by element.
pub open spec fn spec_sequences_match(s1: Seq<ActionSignature>, s2: Seq<ActionSignature>) -> bool {
    s1.len() == s2.len() && forall|i: int| 0 <= i < s1.len() ==> spec_same_sig(#[trigger] s1[i], s2[i])
}

/// Whether two sequences of signatures match.
pub fn sequences_match(seq1: &[ActionSignature], seq2: &[ActionSignature]) -> (b: bool)
    ensures
        b == spec_sequences_match(seq1@, seq2@),
{
    if seq1.len() != seq2.len() {
        return false;
    }
    let mut i: usize = 0;
    while i < seq1.len()
        invariant
            seq1@.len() == seq2@.len(),
            0 <= i <= seq1@.len(),
            forall|k: int| 0 <= k < i ==> spec_same_sig(#[trigger] seq1@[k], seq2@[k]),
        decreases seq1@.len() - i,
    {
        let a = &seq1[i];
        let b = &seq2[i];
        if !(a.app_name == b.app_name && a.action_type.same_as(&b.action_type)) {
            return false;
        }
        i = i + 1;
    }
    true
}

/// The longest `len` (at most `min(pattern length - 1, recent length)`) such
/// that the last `len` recent signatures match the first `len` of the pattern.
pub open spec fn spec_partial_match_len(pattern: Seq<ActionSignature>, recent: Seq<ActionSignature>, len: int) -> bool {
    1 <= len <= pattern.len() - 1 && len <= recent.len()
        && spec_sequences_match(recent.skip(recent.len() - len), pattern.take(len))
}

/// Where the recent actions stand in a pattern: the position (0-based) in
/// the pattern of the last recent action, for the longest overlap between
/// the end of the recent actions and the start of the pattern (the whole
/// pattern excluded).
pub fn find_partial_match(pattern_seq: &[ActionSignature], recent_sigs: &[ActionSignature]) -> (r: Option<usize>)
    ensures
        match r {
            Some(p) => spec_partial_match_len(pattern_seq@, recent_sigs@, p + 1)
                && forall|l: int| p + 1 < l ==> !#[trigger] spec_partial_match_len(pattern_seq@, recent_sigs@, l),
            None => forall|l: int| !#[trigger] spec_partial_match_len(pattern_seq@, recent_sigs@, l),
        },
{
    if pattern_seq.len() == 0 || recent_sigs.len() == 0 {
        return None;
    }
    let max_len = if pattern_seq.len() - 1 < recent_sigs.len() { pattern_seq.len() - 1 } else { recent_sigs.len() };
    let mut len = max_len;
    while len >= 1
        invariant
            max_len == if pattern_seq@.len() - 1 < recent_sigs@.len() { pattern_seq@.len() - 1 } else { recent_sigs@.len() as int },
            0 <= len <= max_len,
            forall|l: int| len < l ==> !#[trigger] spec_partial_match_len(pattern_seq@, recent_sigs@, l),
        decreases len,
    {
        let tail = vstd::slice::slice_subrange(recent_sigs, recent_sigs.len() - len, recent_sigs.len());
        let head = vstd::slice::slice_subrange(pattern_seq, 0, len);
        proof {
            assert(tail@ =~= recent_sigs@.skip(recent_sigs@.len() - len));
            assert(head@ =~= pattern_seq@.take(len as int));
        }
        if sequences_match(tail, head) {
            return Some(len - 1);
        }
        len = len - 1;
    }
    None
}

/// Number of windows of `history` that match `sequence`, ending before `m`.
pub open spec fn spec_count_windows(history: Seq<ActionSignature>, sequence: Seq<ActionSignature>, m: int) -> nat
    decreases m,
{
    if m <= 0 {
        0
    } else {
        spec_count_windows(history, sequence, m - 1)
            + if spec_sequences_match(history.subrange(m - 1, m - 1 + sequence.len()), sequence) { 1nat } else { 0nat }
    }
}

/// How many times a sequence occurs (overlapping allowed) in a history.
pub fn count_sequence_occurrences(history: &[ActionSignature], sequence: &[ActionSignature]) -> (n: usize)
    requires
        sequence@.len() > 0,
    ensures
        history@.len() < sequence@.len() ==> n == 0,
        history@.len() >= sequence@.len() ==> n == spec_count_windows(history@, sequence@, history@.len() - sequence@.len() + 1),
{
    if history.len() < sequence.len() {
        return 0;
    }
    let hl = history.len();
    let sl = sequence.len();
    let windows = hl - sl + 1;
    let mut count: usize = 0;
    let mut i: usize = 0;
    while i < windows
        invariant
            windows == history@.len() - sequence@.len() + 1,
            sequence@.len() > 0,
            history@.len() >= sequence@.len(),
            hl == history@.len(),
            sl == sequence@.len(),
            0 <= i <= windows,
            count == spec_count_windows(history@, sequence@, i as int),
            count <= i,
        decreases windows - i,
    {
        let w = vstd::slice::slice_subrange(history, i, i + sl);
        if sequences_match(w, sequence) {
            count = count + 1;
        }
        i = i + 1;
    }
    count
}

/// The signatures of the last `n` actions (all of them when fewer), oldest first.
pub fn recent_signatures(actions: &[UserAction], n: usize) -> (sigs: Vec<ActionSignature>)
    ensures
        sigs@.len() == if actions@.len() < n { actions@.len() } else { n as nat },
        forall|k: int| 0 <= k < sigs@.len() ==> {
            let a = actions@[actions@.len() - sigs@.len() + k];
            &&& (#[trigger] sigs@[k]).app_name@ == a.app_name@
            &&& sigs@[k].action_type == a.action_type
        },
{
    let start = if actions.len() < n { 0 } else { actions.len() - n };
    let mut sigs: Vec<ActionSignature> = Vec::new();
    let mut i: usize = start;
    while i < actions.len()
        invariant
            start == if actions@.len() < n { 0 } else { actions@.len() - n },
            start <= i <= actions@.len(),
            sigs@.len() == i - start,
            forall|k: int| 0 <= k < sigs@.len() ==> {
                let a = actions@[start + k];
                &&& (#[trigger] sigs@[k]).app_name@ == a.app_name@
                &&& sigs@[k].action_type == a.action_type
            },
        decreases actions@.len() - i,
    {
        sigs.push(ActionSignature::from_action(&actions[i]));
        i = i + 1;
    }
    sigs
}

/// Distinct names, in order of first appearance.
pub open spec fn spec_unique(names: Seq<Seq<char>>) -> Seq<Seq<char>>
    decreases names.len(),
{
    if names.len() == 0 {
        Seq::empty()
    } else {
        let prev = spec_unique(names.drop_last());
        if prev.contains(names.last()) { prev } else { prev.push(names.last()) }
    }
}

/// The application names of a sequence.
pub open spec fn spec_apps(sequence: Seq<ActionSignature>) -> Seq<Seq<char>> {
    sequence.map_values(|s: ActionSignature| s.app_name@)
}

/// The distinct application names of a sequence, in order of first appearance.
pub fn unique_apps(sequence: &[ActionSignature]) -> (apps: Vec<String>)
    ensures
        spec_strings(apps@) == spec_unique(spec_apps(sequence@)),
{
    let ghost names = spec_apps(sequence@);
    let mut apps: Vec<String> = Vec::new();
    let mut i: usize = 0;
    while i < sequence.len()
        invariant
            0 <= i <= sequence@.len(),
            names == spec_apps(sequence@),
            spec_strings(apps@) == spec_unique(names.take(i as int)),
        decreases sequence@.len() - i,
    {
        proof {
            assert(names.take(i + 1).drop_last() =~= names.take(i as int));
            assert(names.take(i + 1).last() == sequence@[i as int].app_name@);
        }
        let name = &sequence[i].app_name;
        let mut seen = false;
        let mut j: usize = 0;
        while j < apps.len()
            invariant
                0 <= j <= apps@.len(),
                seen == exists|k: int| 0 <= k < j && apps@[k]@ == name@,
            decreases apps@.len() - j,
        {
            if apps[j] == *name {
                seen = true;
            }
            j = j + 1;
        }
        proof {
            if seen {
                let k = choose|k: int| 0 <= k < apps@.len() && apps@[k]@ == name@;
                assert(spec_strings(apps@)[k] == name@);
            } else {
                assert forall|k: int| 0 <= k < spec_strings(apps@).len() implies spec_strings(apps@)[k] != name@ by {
                    assert(spec_strings(apps@)[k] == apps@[k]@);
                }
            }
        }
        if !seen {
            let ghost before = spec_strings(apps@);
            apps.push(name.clone());
            assert(spec_strings(apps@) =~= before.push(name@));
        }
        i = i + 1;
    }
    assert(names.take(sequence@.len() as int) =~= names);
    apps
}

/// The name of a pattern: from its distinct applications ("A workflow",
/// "A → B workflow", "A → B → C workflow"), "Multi-app workflow (n)" beyond
/// three, "Unknown Pattern" when empty.
pub open spec fn spec_pattern_name(sequence: Seq<ActionSignature>) -> Seq<char> {
    let u = spec_unique(spec_apps(sequence));
    if sequence.len() == 0 {
        "Unknown Pattern"@
    } else if u.len() == 1 {
        u[0] + " workflow"@
    } else if u.len() == 2 {
        u[0] + " → "@ + u[1] + " workflow"@
    } else if u.len() == 3 {
        u[0] + " → "@ + u[1] + " → "@ + u[2] + " workflow"@
    } else {
        "Multi-app workflow ("@ + spec_decimal(sequence.len()) + ")"@
    }
}

/// A readable name for a pattern.
pub fn generate_pattern_name(sequence: &[ActionSignature]) -> (name: String)
    ensures
        name@ == spec_pattern_name(sequence@),
{
    if sequence.len() == 0 {
        return String::from_str("Unknown Pattern");
    }
    let u = unique_apps(sequence);
    proof {
        assert(spec_strings(u@).len() == u@.len());
    }
    if u.len() == 1 {
        join2(u[0].as_str(), " workflow")
    } else if u.len() == 2 {
        String::from_str(u[0].as_str()).concat(" → ").concat(u[1].as_str()).concat(" workflow")
    } else if u.len() == 3 {
        String::from_str(u[0].as_str()).concat(" → ").concat(u[1].as_str()).concat(" → ").concat(u[2].as_str()).concat(" workflow")
    } else {
        let n = decimal_string(sequence.len() as u64);
        join3("Multi-app workflow (", n.as_str(), ")")
    }
}

/// Tags of a pattern: its distinct applications, then "file-operations"
/// when it opens or saves files, then "clipboard" when it copies or pastes.
pub open spec fn spec_tags(sequence: Seq<ActionSignature>) -> Seq<Seq<char>> {
    let u = spec_unique(spec_apps(sequence));
    let a = if exists|i: int| 0 <= i < sequence.len() && (#[trigger] sequence[i].action_type is FileOpen || sequence[i].action_type is FileSave) {
        u.push("file-operations"@)
    } else {
        u
    };
    if exists|i: int| 0 <= i < sequence.len() && (#[trigger] sequence[i].action_type is Copy || sequence[i].action_type is Paste) {
        a.push("clipboard"@)
    } else {
        a
    }
}

/// Tags describing a pattern.
pub fn extract_tags(sequence: &[ActionSignature]) -> (tags: Vec<String>)
    ensures
        spec_strings(tags@) == spec_tags(sequence@),
{
    let mut tags = unique_apps(sequence);
    let mut files = false;
    let mut clip = false;
    let mut i: usize = 0;
    while i < sequence.len()
        invariant
            0 <= i <= sequence@.len(),
            files == exists|k: int| 0 <= k < i && (#[trigger] sequence@[k].action_type is FileOpen || sequence@[k].action_type is FileSave),
            clip == exists|k: int| 0 <= k < i && (#[trigger] sequence@[k].action_type is Copy || sequence@[k].action_type is Paste),
        decreases sequence@.len() - i,
    {
        match sequence[i].action_type {
            ActionType::FileOpen | ActionType::FileSave => {
                files = true;
            },
            ActionType::Copy | ActionType::Paste => {
                clip = true;
            },
            _ => {},
        }
        i = i + 1;
    }
    let ghost u = spec_strings(tags@);
    if files {
        tags.push(String::from_str("file-operations"));
    }
    if clip {
        tags.push(String::from_str("clipboard"));
    }
    assert(spec_strings(tags@) =~= spec_tags(sequence@));
    tags
}

/// Statistics of the action predictor.
#[derive(Debug, Clone, Copy, PartialEq, Eq, Structural)]
pub struct PredictionStats {
    pub patterns_loaded: usize,
    pub recent_actions_count: usize,
    pub cached_predictions: usize,
}

/// Statistics of the pattern storage.
#[derive(Debug, Clone)]
pub struct StorageStats {
    pub total_patterns: usize,
    pub total_tasks: usize,
    pub file_size_bytes: u64,
    pub last_updated: String,
}

// ---------------------------------------------------------------- learning

/// The values of an action type.
pub enum ActionKind {
    AppSwitch,
    WindowFocus,
    FileOpen,
    FileSave,
    Typing,
    Click,
    Scroll,
    Copy,
    Paste,
    Command,
    Custom(Seq<char>),
}

impl View for ActionType {
    type V = ActionKind;

    open spec fn view(&self) -> ActionKind {
        match self {
            ActionType::AppSwitch => ActionKind::AppSwitch,
            ActionType::WindowFocus => ActionKind::WindowFocus,
            ActionType::FileOpen => ActionKind::FileOpen,
            ActionType::FileSave => ActionKind::FileSave,
            ActionType::Typing => ActionKind::Typing,
            ActionType::Click => ActionKind::Click,
            ActionType::Scroll => ActionKind::Scroll,
            ActionType::Copy => ActionKind::Copy,
            ActionType::Paste => ActionKind::Paste,
            ActionType::Command => ActionKind::Command,
            ActionType::Custom(s) => ActionKind::Custom(s@),
        }
    }
}

/// The values of a signature: application, action and window pattern.
pub open spec fn spec_sig_view(s: ActionSignature) -> (Seq<char>, ActionKind, Option<Seq<char>>) {
    (s.app_name@, s.action_type@, match s.window_pattern { Some(p) => Some(p@), None => None })
}

/// The values of a sequence of signatures.
pub open spec fn spec_seq_view(s: Seq<ActionSignature>) -> Seq<(Seq<char>, ActionKind, Option<Seq<char>>)> {
    s.map_values(|x: ActionSignature| spec_sig_view(x))
}

proof fn lemma_same_type_view(a: ActionType, b: ActionType)
    ensures
        spec_same_type(a, b) <==> a@ == b@,
{
}

/// Whether two signatures are equal in every field.
pub fn signatures_equal(a: &ActionSignature, b: &ActionSignature) -> (r: bool)
    ensures
        r == (spec_sig_view(*a) == spec_sig_view(*b)),
{
    proof {
        lemma_same_type_view(a.action_type, b.action_type);
    }
    let same_pattern = match (&a.window_pattern, &b.window_pattern) {
        (Some(x), Some(y)) => *x == *y,
        (None, None) => true,
        _ => false,
    };
    a.app_name == b.app_name && a.action_type.same_as(&b.action_type) && same_pattern
}

/// Whether two sequences of signatures are equal in every field.
pub fn signature_seqs_equal(a: &[ActionSignature], b: &[ActionSignature]) -> (r: bool)
    ensures
        r == (spec_seq_view(a@) == spec_seq_view(b@)),
{
    if a.len() != b.len() {
        assert(spec_seq_view(a@).len() != spec_seq_view(b@).len());
        return false;
    }
    let mut i: usize = 0;
    while i < a.len()
        invariant
            a@.len() == b@.len(),
            i <= a@.len(),
            forall|k: int| 0 <= k < i ==> spec_sig_view(#[trigger] a@[k]) == spec_sig_view(b@[k]),
        decreases a@.len() - i,
    {
        if !signatures_equal(&a[i], &b[i]) {
            assert(spec_seq_view(a@)[i as int] != spec_seq_view(b@)[i as int]);
            return false;
        }
        i = i + 1;
    }
    assert(spec_seq_view(a@) =~= spec_seq_view(b@));
    true
}

fn copy_signature(s: &ActionSignature) -> (r: ActionSignature)
    ensures
        spec_sig_view(r) == spec_sig_view(*s),
        r.app_name@ == s.app_name@,
        r.action_type == s.action_type,
{
    ActionSignature {
        app_name: s.app_name.clone(),
        action_type: s.action_type.copy(),
        window_pattern: match &s.window_pattern {
            Some(p) => Some(p.clone()),
            None => None,
        },
    }
}

/// A copy of a sequence of signatures.
pub fn copy_signatures(s: &[ActionSignature]) -> (r: Vec<ActionSignature>)
    ensures
        spec_seq_view(r@) == spec_seq_view(s@),
{
    let mut r: Vec<ActionSignature> = Vec::new();
    let mut i: usize = 0;
    while i < s.len()
        invariant
            i <= s@.len(),
            spec_seq_view(r@) == spec_seq_view(s@.take(i as int)),
        decreases s@.len() - i,
    {
        let ghost before = r@;
        let c = copy_signature(&s[i]);
        r.push(c);
        proof {
            assert(r@ == before.push(c));
            assert(s@.take(i + 1) =~= s@.take(i as int).push(s@[i as int]));
            assert(spec_seq_view(r@) =~= spec_seq_view(before).push(spec_sig_view(c)));
            assert(spec_seq_view(s@.take(i + 1)) =~= spec_seq_view(s@.take(i as int)).push(spec_sig_view(s@[i as int])));
        }
        i = i + 1;
    }
    assert(s@.take(s@.len() as int) =~= s@);
    r
}

/// Most actions remembered by the pattern learner.
pub const MAX_EVENT_HISTORY: usize = 1000;

/// Shortest sequence counted as a pattern.
pub const MIN_PATTERN_LENGTH: usize = 2;

/// Longest sequence counted as a pattern.
pub const MAX_PATTERN_LENGTH: usize = 5;

/// Occurrences from which a sequence is a confirmed pattern.
pub const MIN_PATTERN_OCCURRENCES: usize = 3;

/// A sequence of signature values.
pub type SeqKey = Seq<(Seq<char>, ActionKind, Option<Seq<char>>)>;

/// The count kept for a sequence (0 when none is kept).
pub open spec fn spec_count_of(counts: Seq<(SeqKey, nat)>, key: SeqKey) -> nat {
    if exists|i: int| 0 <= i < counts.len() && #[trigger] counts[i].0 == key {
        counts[choose|i: int| 0 <= i < counts.len() && #[trigger] counts[i].0 == key].1
    } else {
        0
    }
}

/// No sequence is counted twice.
pub open spec fn spec_counts_distinct(counts: Seq<(SeqKey, nat)>) -> bool {
    forall|i: int, j: int| 0 <= i < counts.len() && 0 <= j < counts.len() && i != j ==> #[trigger] counts[i].0 != #[trigger] counts[j].0
}

/// The values of the signature of an action.
pub open spec fn spec_action_sig(a: UserAction) -> (Seq<char>, ActionKind, Option<Seq<char>>) {
    (a.app_name@, a.action_type@, match a.window_title { Some(t) => Some(spec_window_pattern(t@)), None => None })
}

/// The history after one more action: the oldest leaves beyond 1000.
pub open spec fn spec_push_history(h: SeqKey, s: (Seq<char>, ActionKind, Option<Seq<char>>)) -> SeqKey {
    let p = h.push(s);
    if p.len() > MAX_EVENT_HISTORY { p.drop_first() } else { p }
}

/// The times after one more action: the oldest leaves beyond 1000.
pub open spec fn spec_push_timestamp(t: Seq<i64>, ts: i64) -> Seq<i64> {
    let p = t.push(ts);
    if p.len() > MAX_EVENT_HISTORY { p.drop_first() } else { p }
}

/// The last `n` signatures of a history.
pub open spec fn spec_suffix(h: SeqKey, n: int) -> SeqKey {
    h.skip(h.len() - n)
}

/// The sequences counted after an action: the last 2, 3, 4 and 5 actions of
/// the history (as many as it holds).
pub open spec fn spec_is_counted_suffix(h: SeqKey, key: SeqKey) -> bool {
    exists|len: int| MIN_PATTERN_LENGTH <= len <= MAX_PATTERN_LENGTH && len <= h.len()
        && key == #[trigger] spec_suffix(h, len)
}

/// The counted suffixes of length 2 up to `n` that reached three
/// occurrences, shortest first, with their counts.
pub open spec fn spec_confirmed(h: SeqKey, counts: Seq<(SeqKey, nat)>, n: int) -> Seq<(SeqKey, nat)>
    decreases n,
{
    if n < MIN_PATTERN_LENGTH {
        Seq::empty()
    } else {
        let k = spec_suffix(h, n);
        let c = spec_count_of(counts, k);
        spec_confirmed(h, counts, n - 1) + if c >= MIN_PATTERN_OCCURRENCES { seq![(k, c)] } else { Seq::empty() }
    }
}

/// How many suffixes are counted for a history of `len` actions.
pub open spec fn spec_max_counted(len: nat) -> int {
    if len < MAX_PATTERN_LENGTH { len as int } else { MAX_PATTERN_LENGTH as int }
}

/// Counts sequences of actions and reports those seen at least three times.
pub struct SequenceTracker {
    history: Vec<ActionSignature>,
    timestamps: Vec<i64>,
    counts: Vec<(Vec<ActionSignature>, usize)>,
}

impl SequenceTracker {
    /// The signatures of the remembered actions, oldest first.
    pub closed spec fn history(&self) -> SeqKey {
        spec_seq_view(self.history@)
    }

    /// The counted sequences with their counts.
    pub closed spec fn counts(&self) -> Seq<(SeqKey, nat)> {
        self.counts@.map_values(|p: (Vec<ActionSignature>, usize)| (spec_seq_view(p.0@), p.1 as nat))
    }

    /// When the remembered actions happened, oldest first.
    pub closed spec fn timestamps(&self) -> Seq<i64> {
        self.timestamps@
    }

    pub closed spec fn wf(&self) -> bool {
        &&& spec_counts_distinct(self.counts())
        &&& self.history@.len() <= MAX_EVENT_HISTORY
        &&& self.timestamps@.len() == self.history@.len()
    }

    /// Nothing seen yet.
    pub fn new() -> (t: Self)
        ensures
            t.wf(),
            t.history().len() == 0,
            t.counts().len() == 0,
    {
        let t = SequenceTracker { history: Vec::new(), timestamps: Vec::new(), counts: Vec::new() };
        assert(t.counts() =~= Seq::<(SeqKey, nat)>::empty());
        t
    }

    /// Number of remembered actions.
    pub fn history_len(&self) -> (n: usize)
        ensures
            n == self.history().len(),
    {
        self.history.len()
    }

    /// Number of counted sequences.
    pub fn sequence_count(&self) -> (n: usize)
        ensures
            n == self.counts().len(),
    {
        self.counts.len()
    }

    /// Adds one to the count of a sequence, and returns the new count.
    fn bump(&mut self, key: Vec<ActionSignature>) -> (c: usize)
        requires
            old(self).wf(),
        ensures
            final(self).wf(),
            final(self).history() == old(self).history(),
            final(self).history@ == old(self).history@,
            final(self).timestamps@ == old(self).timestamps@,
            c == spec_count_of(final(self).counts(), spec_seq_view(key@)),
            spec_count_of(final(self).counts(), spec_seq_view(key@)) == {
                let c0 = spec_count_of(old(self).counts(), spec_seq_view(key@));
                if c0 < usize::MAX { c0 + 1 } else { c0 }
            },
            forall|k: SeqKey| k != spec_seq_view(key@) ==> #[trigger] spec_count_of(final(self).counts(), k) == spec_count_of(old(self).counts(), k),
    {
        let ghost old_counts = self.counts();
        let ghost kv = spec_seq_view(key@);
        let mut i: usize = 0;
        while i < self.counts.len()
            invariant
                i <= self.counts@.len(),
                self.counts() == old_counts,
                old_counts == old(self).counts(),
                self.history@ == old(self).history@,
                self.timestamps@ == old(self).timestamps@,
                self.history@.len() <= MAX_EVENT_HISTORY,
                self.timestamps@.len() == self.history@.len(),
                spec_counts_distinct(old_counts),
                kv == spec_seq_view(key@),
                forall|k: int| 0 <= k < i ==> #[trigger] old_counts[k].0 != kv,
            decreases self.counts@.len() - i,
        {
            let same = signature_seqs_equal(self.counts[i].0.as_slice(), key.as_slice());
            assert(old_counts[i as int].0 == spec_seq_view(self.counts@[i as int].0@));
            if same {
                let c0 = self.counts[i].1;
                let c1 = if c0 < usize::MAX { c0 + 1 } else { c0 };
                let ghost before = self.counts@;
                let entry = (key, c1);
                self.counts.set(i, entry);
                proof {
                    let nc = self.counts();
                    assert(nc =~= old_counts.update(i as int, (kv, c1 as nat)));
                    assert(spec_counts_distinct(nc)) by {
                        assert forall|a: int, b: int| 0 <= a < nc.len() && 0 <= b < nc.len() && a != b implies #[trigger] nc[a].0 != #[trigger] nc[b].0 by {
                            if a != i && b != i {
                                assert(nc[a] == old_counts[a]);
                                assert(nc[b] == old_counts[b]);
                            } else if a == i {
                                assert(nc[b] == old_counts[b]);
                                assert(old_counts[i as int].0 == kv);
                            } else {
                                assert(nc[a] == old_counts[a]);
                                assert(old_counts[i as int].0 == kv);
                            }
                        }
                    }
                    assert(nc[i as int].0 == kv);
                    let w = choose|w: int| 0 <= w < nc.len() && #[trigger] nc[w].0 == kv;
                    assert(w == i);
                    let w0 = choose|w: int| 0 <= w < old_counts.len() && #[trigger] old_counts[w].0 == kv;
                    assert(old_counts[i as int].0 == kv);
                    assert(w0 == i);
                    assert forall|k: SeqKey| k != kv implies #[trigger] spec_count_of(nc, k) == spec_count_of(old_counts, k) by {
                        if exists|x: int| 0 <= x < nc.len() && #[trigger] nc[x].0 == k {
                            let x = choose|x: int| 0 <= x < nc.len() && #[trigger] nc[x].0 == k;
                            assert(x != i);
                            assert(nc[x] == old_counts[x]);
                            let y = choose|y: int| 0 <= y < old_counts.len() && #[trigger] old_counts[y].0 == k;
                            assert(old_counts[y].0 == k);
                        } else {
                            if exists|y: int| 0 <= y < old_counts.len() && #[trigger] old_counts[y].0 == k {
                                let y = choose|y: int| 0 <= y < old_counts.len() && #[trigger] old_counts[y].0 == k;
                                assert(y != i);
                                assert(nc[y] == old_counts[y]);
                            }
                        }
                    }
                }
                return c1;
            }
            i = i + 1;
        }
        let ghost before = self.counts@;
        self.counts.push((key, 1));
        proof {
            let nc = self.counts();
            assert(nc =~= old_counts.push((kv, 1nat)));
            assert(!(exists|x: int| 0 <= x < old_counts.len() && #[trigger] old_counts[x].0 == kv));
            assert(spec_counts_distinct(nc)) by {
                assert forall|a: int, b: int| 0 <= a < nc.len() && 0 <= b < nc.len() && a != b implies #[trigger] nc[a].0 != #[trigger] nc[b].0 by {
                    if a < old_counts.len() && b < old_counts.len() {
                        assert(nc[a] == old_counts[a]);
                        assert(nc[b] == old_counts[b]);
                    } else if a < old_counts.len() {
                        assert(nc[a] == old_counts[a]);
                    } else {
                        assert(nc[b] == old_counts[b]);
                    }
                }
            }
            let last = old_counts.len() as int;
            assert(nc[last].0 == kv);
            let w = choose|w: int| 0 <= w < nc.len() && #[trigger] nc[w].0 == kv;
            assert(w == last);
            assert forall|k: SeqKey| k != kv implies #[trigger] spec_count_of(nc, k) == spec_count_of(old_counts, k) by {
                if exists|x: int| 0 <= x < nc.len() && #[trigger] nc[x].0 == k {
                    let x = choose|x: int| 0 <= x < nc.len() && #[trigger] nc[x].0 == k;
                    assert(x != last);
                    assert(nc[x] == old_counts[x]);
                    let y = choose|y: int| 0 <= y < old_counts.len() && #[trigger] old_counts[y].0 == k;
                    assert(nc[y] == old_counts[y]);
                } else {
                    if exists|y: int| 0 <= y < old_counts.len() && #[trigger] old_counts[y].0 == k {
                        let y = choose|y: int| 0 <= y < old_counts.len() && #[trigger] old_counts[y].0 == k;
                        assert(nc[y] == old_counts[y]);
                    }
                }
            }
        }
        1
    }
}

impl SequenceTracker {
    /// Records an action: its signature joins the history (the oldest of
    /// more than 1000 leaves), the last 2 to 5 signatures are counted once
    /// more, and those counted at least three times are returned with their
    /// counts, shortest first.
    pub fn record_action(&mut self, action: &UserAction) -> (confirmed: Vec<(Vec<ActionSignature>, usize)>)
        requires
            old(self).wf(),
        ensures
            final(self).wf(),
            final(self).history() == spec_push_history(old(self).history(), spec_action_sig(*action)),
            final(self).timestamps() == spec_push_timestamp(old(self).timestamps(), action.timestamp),
            forall|k: SeqKey| #[trigger] spec_count_of(final(self).counts(), k) == if spec_is_counted_suffix(final(self).history(), k) {
                let c0 = spec_count_of(old(self).counts(), k);
                if c0 < usize::MAX { c0 + 1 } else { c0 }
            } else {
                spec_count_of(old(self).counts(), k)
            },
            confirmed@.map_values(|p: (Vec<ActionSignature>, usize)| (spec_seq_view(p.0@), p.1 as nat))
                == spec_confirmed(final(self).history(), final(self).counts(), spec_max_counted(final(self).history().len())),
    {
        let sig = ActionSignature::from_action(action);
        let ghost h0 = self.history@;
        self.history.push(sig);
        self.timestamps.push(action.timestamp);
        if self.history.len() > MAX_EVENT_HISTORY {
            self.history.remove(0);
            self.timestamps.remove(0);
        }
        assert(self.timestamps@ =~= spec_push_timestamp(old(self).timestamps(), action.timestamp));
        let ghost t_after = self.timestamps@;
        proof {
            let p = h0.push(sig);
            assert(spec_seq_view(p) =~= spec_seq_view(h0).push(spec_sig_view(sig)));
            assert(spec_sig_view(sig) == spec_action_sig(*action));
            if p.len() > MAX_EVENT_HISTORY {
                assert(spec_seq_view(self.history@) =~= spec_seq_view(p).drop_first());
            }
        }
        let ghost h = self.history();
        let ghost c_old = self.counts();
        let hl = self.history.len();
        let max_len: usize = if hl < MAX_PATTERN_LENGTH { hl } else { MAX_PATTERN_LENGTH };
        let mut confirmed: Vec<(Vec<ActionSignature>, usize)> = Vec::new();
        let mut len: usize = MIN_PATTERN_LENGTH;
        while len <= max_len
            invariant
                self.wf(),
                h == self.history(),
                t_after == self.timestamps@,
                hl == self.history@.len(),
                h.len() == hl,
                max_len == spec_max_counted(hl as nat),
                max_len <= MAX_PATTERN_LENGTH,
                MIN_PATTERN_LENGTH <= len <= max_len + 1 || (len == MIN_PATTERN_LENGTH && max_len < MIN_PATTERN_LENGTH),
                c_old == old(self).counts(),
                forall|k: SeqKey| #[trigger] spec_count_of(self.counts(), k) == if (exists|l: int| MIN_PATTERN_LENGTH <= l < len && l <= h.len() && k == #[trigger] spec_suffix(h, l)) {
                    let c0 = spec_count_of(c_old, k);
                    if c0 < usize::MAX { c0 + 1 } else { c0 }
                } else {
                    spec_count_of(c_old, k)
                },
                confirmed@.map_values(|p: (Vec<ActionSignature>, usize)| (spec_seq_view(p.0@), p.1 as nat))
                    == spec_confirmed(h, self.counts(), len - 1),
            decreases max_len + 1 - len,
        {
            let mut key: Vec<ActionSignature> = Vec::new();
            let mut j: usize = hl - len;
            while j < hl
                invariant
                    hl == self.history@.len(),
                    len <= hl,
                    hl - len <= j <= hl,
                    spec_seq_view(key@) == spec_seq_view(self.history@.subrange(hl - len, j as int)),
                decreases hl - j,
            {
                let ghost before = key@;
                key.push(copy_signature(&self.history[j]));
                proof {
                    assert(spec_seq_view(key@) =~= spec_seq_view(before).push(spec_sig_view(self.history@[j as int])));
                    assert(spec_seq_view(self.history@.subrange(hl - len, j + 1)) =~= spec_seq_view(self.history@.subrange(hl - len, j as int)).push(spec_sig_view(self.history@[j as int])));
                }
                j = j + 1;
            }
            let ghost kv = spec_seq_view(key@);
            proof {
                assert(kv =~= spec_suffix(h, len as int));
            }
            let mut key2: Vec<ActionSignature> = Vec::new();
            let mut m: usize = 0;
            while m < key.len()
                invariant
                    m <= key@.len(),
                    spec_seq_view(key2@) == spec_seq_view(key@.take(m as int)),
                decreases key@.len() - m,
            {
                let ghost before = key2@;
                key2.push(copy_signature(&key[m]));
                proof {
                    assert(spec_seq_view(key2@) =~= spec_seq_view(before).push(spec_sig_view(key@[m as int])));
                    assert(spec_seq_view(key@.take(m + 1)) =~= spec_seq_view(key@.take(m as int)).push(spec_sig_view(key@[m as int])));
                }
                m = m + 1;
            }
            assert(key@.take(key@.len() as int) =~= key@);
            let ghost before_counts = self.counts();
            let c = self.bump(key2);
            let ghost prev_confirmed = spec_confirmed(h, before_counts, len - 1);
            proof {
                // Suffixes of other lengths keep their counts.
                assert forall|l: int| MIN_PATTERN_LENGTH <= l < len implies
                    #[trigger] spec_count_of(self.counts(), spec_suffix(h, l)) == spec_count_of(before_counts, spec_suffix(h, l)) by {
                    assert(spec_suffix(h, l).len() != kv.len());
                }
                lemma_confirmed_unchanged(h, before_counts, self.counts(), (len - 1) as int);
                assert forall|k: SeqKey| #[trigger] spec_count_of(self.counts(), k) == if (exists|l: int| MIN_PATTERN_LENGTH <= l < len + 1 && l <= h.len() && k == #[trigger] spec_suffix(h, l)) {
                    let c0 = spec_count_of(c_old, k);
                    if c0 < usize::MAX { c0 + 1 } else { c0 }
                } else {
                    spec_count_of(c_old, k)
                } by {
                    if k == kv {
                        assert(spec_suffix(h, len as int) == k);
                        if exists|l: int| MIN_PATTERN_LENGTH <= l < len && l <= h.len() && k == #[trigger] spec_suffix(h, l) {
                            let l = choose|l: int| MIN_PATTERN_LENGTH <= l < len && l <= h.len() && k == #[trigger] spec_suffix(h, l);
                            assert(spec_suffix(h, l).len() == l);
                        }
                    } else {
                        if exists|l: int| MIN_PATTERN_LENGTH <= l < len + 1 && l <= h.len() && k == #[trigger] spec_suffix(h, l) {
                            let l = choose|l: int| MIN_PATTERN_LENGTH <= l < len + 1 && l <= h.len() && k == #[trigger] spec_suffix(h, l);
                            assert(l != len);
                        }
                    }
                }
            }
            if c >= MIN_PATTERN_OCCURRENCES {
                let ghost before = confirmed@;
                confirmed.push((key, c));
                proof {
                    assert(confirmed@.map_values(|p: (Vec<ActionSignature>, usize)| (spec_seq_view(p.0@), p.1 as nat))
                        =~= before.map_values(|p: (Vec<ActionSignature>, usize)| (spec_seq_view(p.0@), p.1 as nat)).push((kv, c as nat)));
                }
            }
            len = len + 1;
        }
        proof {
            assert forall|k: SeqKey| (exists|l: int| MIN_PATTERN_LENGTH <= l < len && l <= h.len() && k == #[trigger] spec_suffix(h, l))
                <==> spec_is_counted_suffix(h, k) by {
                if spec_is_counted_suffix(h, k) {
                    let l = choose|l: int| MIN_PATTERN_LENGTH <= l <= MAX_PATTERN_LENGTH && l <= h.len() && k == #[trigger] spec_suffix(h, l);
                    assert(MIN_PATTERN_LENGTH <= l < len && l <= h.len() && k == spec_suffix(h, l));
                }
            }
            if max_len < MIN_PATTERN_LENGTH {
                assert(spec_confirmed(h, self.counts(), max_len as int) =~= Seq::<(SeqKey, nat)>::empty());
            }
        }
        confirmed
    }
}

/// Counts that agree on the suffixes of lengths 2 to `n` confirm the same
/// sequences.
proof fn lemma_confirmed_unchanged(h: SeqKey, c1: Seq<(SeqKey, nat)>, c2: Seq<(SeqKey, nat)>, n: int)
    requires
        forall|l: int| MIN_PATTERN_LENGTH <= l <= n ==> #[trigger] spec_count_of(c2, spec_suffix(h, l)) == spec_count_of(c1, spec_suffix(h, l)),
    ensures
        spec_confirmed(h, c1, n) == spec_confirmed(h, c2, n),
    decreases n,
{
    if n >= MIN_PATTERN_LENGTH {
        lemma_confirmed_unchanged(h, c1, c2, n - 1);
        assert(spec_count_of(c2, spec_suffix(h, n)) == spec_count_of(c1, spec_suffix(h, n)));
    }
}

/// The durations (last time minus first time) of the windows of the
/// history, starting before `w`, whose signatures equal the sequence.
pub open spec fn spec_window_durations(h: SeqKey, t: Seq<i64>, seq: SeqKey, w: int) -> Seq<int>
    decreases w,
{
    if w <= 0 {
        Seq::empty()
    } else {
        let s = w - 1;
        spec_window_durations(h, t, seq, w - 1) + if h.subrange(s, s + seq.len()) == seq {
            seq![t[s + seq.len() - 1] - t[s]]
        } else {
            Seq::empty()
        }
    }
}

impl SequenceTracker {
    /// The durations of the past occurrences of a sequence in the history,
    /// oldest first (the average duration of a pattern is taken from them).
    pub fn window_durations(&self, sequence: &[ActionSignature]) -> (d: Vec<i128>)
        requires
            self.wf(),
            sequence@.len() > 0,
        ensures
            d@.map_values(|x: i128| x as int) == if sequence@.len() <= self.history().len() {
                spec_window_durations(self.history(), self.timestamps(), spec_seq_view(sequence@),
                    self.history().len() - sequence@.len() + 1)
            } else {
                Seq::<int>::empty()
            },
    {
        let n = sequence.len();
        let hl = self.history.len();
        let mut d: Vec<i128> = Vec::new();
        if n > hl {
            assert(d@.map_values(|x: i128| x as int) =~= Seq::<int>::empty());
            return d;
        }
        let ghost h = self.history();
        let ghost sv = spec_seq_view(sequence@);
        let windows = hl - n + 1;
        let mut w: usize = 0;
        while w < windows
            invariant
                self.wf(),
                h == self.history(),
                sv == spec_seq_view(sequence@),
                n == sequence@.len(),
                n > 0,
                hl == self.history@.len(),
                n <= hl,
                windows == hl - n + 1,
                w <= windows,
                d@.map_values(|x: i128| x as int) == spec_window_durations(h, self.timestamps(), sv, w as int),
            decreases windows - w,
        {
            let window = vstd::slice::slice_subrange(self.history.as_slice(), w, w + n);
            proof {
                assert(spec_seq_view(window@) =~= h.subrange(w as int, w + n));
            }
            if signature_seqs_equal(window, sequence) {
                let first = self.timestamps[w] as i128;
                let last = self.timestamps[w + n - 1] as i128;
                let ghost before = d@;
                d.push(last - first);
                proof {
                    assert(d@.map_values(|x: i128| x as int) =~= before.map_values(|x: i128| x as int).push(last - first));
                }
            }
            w = w + 1;
        }
        d
    }
}

// ---------------------------------------------------------------- repetition

/// Two signature values match: same application and same kind of action.
pub open spec fn spec_view_match(a: (Seq<char>, ActionKind, Option<Seq<char>>), b: (Seq<char>, ActionKind, Option<Seq<char>>)) -> bool {
    a.0 == b.0 && a.1 == b.1
}

/// Two sequences of signature values match element by element.
pub open spec fn spec_views_match(s1: SeqKey, s2: SeqKey) -> bool {
    s1.len() == s2.len() && forall|i: int| 0 <= i < s1.len() ==> spec_view_match(#[trigger] s1[i], s2[i])
}

/// Number of windows of `h`, starting before `m`, that match `k`.
pub open spec fn spec_count_key_windows(h: SeqKey, k: SeqKey, m: int) -> nat
    decreases m,
{
    if m <= 0 {
        0
    } else {
        spec_count_key_windows(h, k, m - 1)
            + if spec_views_match(h.subrange(m - 1, m - 1 + k.len()), k) { 1nat } else { 0nat }
    }
}

proof fn lemma_match_view(s1: Seq<ActionSignature>, s2: Seq<ActionSignature>)
    ensures
        spec_sequences_match(s1, s2) <==> spec_views_match(spec_seq_view(s1), spec_seq_view(s2)),
{
    if spec_sequences_match(s1, s2) {
        assert forall|i: int| 0 <= i < s1.len() implies spec_view_match(#[trigger] spec_seq_view(s1)[i], spec_seq_view(s2)[i]) by {
            lemma_same_type_view(s1[i].action_type, s2[i].action_type);
            assert(spec_same_sig(s1[i], s2[i]));
        }
    }
    if spec_views_match(spec_seq_view(s1), spec_seq_view(s2)) {
        assert forall|i: int| 0 <= i < s1.len() implies spec_same_sig(#[trigger] s1[i], s2[i]) by {
            lemma_same_type_view(s1[i].action_type, s2[i].action_type);
            assert(spec_view_match(spec_seq_view(s1)[i], spec_seq_view(s2)[i]));
        }
    }
}

proof fn lemma_count_windows_view(h: Seq<ActionSignature>, s: Seq<ActionSignature>, m: int)
    requires
        m <= h.len() - s.len() + 1,
    ensures
        spec_count_windows(h, s, m) == spec_count_key_windows(spec_seq_view(h), spec_seq_view(s), m),
    decreases m,
{
    if m > 0 {
        lemma_count_windows_view(h, s, m - 1);
        let w = h.subrange(m - 1, m - 1 + s.len());
        assert(spec_seq_view(w) =~= spec_seq_view(h).subrange(m - 1, m - 1 + s.len()));
        lemma_match_view(w, s);
    }
}

/// Fewest repetitions of a task worth reporting.
pub const MIN_REPETITIONS: usize = 3;

/// How far back actions are kept, in seconds (a day).
pub const REPETITION_WINDOW_SECS: i64 = 86_400;

/// Longest task looked for, in actions.
pub const MAX_TASK_LENGTH: usize = 10;

/// Number of leading times before the cutoff.
pub open spec fn spec_leading_old(ts: Seq<i64>, cutoff: i64) -> nat
    decreases ts.len(),
{
    if ts.len() == 0 || ts[0] >= cutoff { 0 } else { 1 + spec_leading_old(ts.drop_first(), cutoff) }
}

/// The tasks repeated in a history: for each length from 2 to `n`, the
/// last actions of that length, when the history holds at least three
/// (possibly overlapping) occurrences of them, with their count.
pub open spec fn spec_repetitions(h: SeqKey, n: int) -> Seq<(SeqKey, nat)>
    decreases n,
{
    if n < MIN_PATTERN_LENGTH {
        Seq::empty()
    } else {
        let k = spec_suffix(h, n);
        let c = spec_count_key_windows(h, k, h.len() - n + 1);
        spec_repetitions(h, n - 1) + if c >= MIN_REPETITIONS { seq![(k, c)] } else { Seq::empty() }
    }
}

proof fn lemma_leading_old_bound(ts: Seq<i64>, cutoff: i64)
    ensures
        spec_leading_old(ts, cutoff) <= ts.len(),
    decreases ts.len(),
{
    if ts.len() > 0 && ts[0] < cutoff {
        lemma_leading_old_bound(ts.drop_first(), cutoff);
    }
}

/// The actions of the last day, looked at for tasks the user repeats.
pub struct RepetitionWindow {
    signatures: Vec<ActionSignature>,
    timestamps: Vec<i64>,
}

impl RepetitionWindow {
    /// The signatures of the kept actions, oldest first.
    pub closed spec fn history(&self) -> SeqKey {
        spec_seq_view(self.signatures@)
    }

    /// When the kept actions happened.
    pub closed spec fn timestamps(&self) -> Seq<i64> {
        self.timestamps@
    }

    pub closed spec fn wf(&self) -> bool {
        self.timestamps@.len() == self.signatures@.len()
    }

    /// No actions kept.
    pub fn new() -> (w: Self)
        ensures
            w.wf(),
            w.history().len() == 0,
    {
        RepetitionWindow { signatures: Vec::new(), timestamps: Vec::new() }
    }

    /// Number of kept actions.
    pub fn len(&self) -> (n: usize)
        requires
            self.wf(),
        ensures
            n == self.history().len(),
    {
        self.signatures.len()
    }

    /// Records an action at `now` (seconds): the actions older than a day
    /// at the front of the history leave, and the tasks repeated at least
    /// three times among the last 2 to 10 actions are returned with their
    /// counts, shortest first.
    pub fn record_action_at(&mut self, action: &UserAction, now: i64) -> (tasks: Vec<(Vec<ActionSignature>, usize)>)
        requires
            old(self).wf(),
            now >= i64::MIN + REPETITION_WINDOW_SECS,
        ensures
            final(self).wf(),
            ({
                let hp = old(self).history().push(spec_action_sig(*action));
                let tp = old(self).timestamps().push(action.timestamp);
                let p = spec_leading_old(tp, (now - REPETITION_WINDOW_SECS) as i64) as int;
                &&& final(self).history() == hp.skip(p)
                &&& final(self).timestamps() == tp.skip(p)
            }),
            tasks@.map_values(|t: (Vec<ActionSignature>, usize)| (spec_seq_view(t.0@), t.1 as nat))
                == spec_repetitions(final(self).history(),
                    if final(self).history().len() < MAX_TASK_LENGTH { final(self).history().len() as int } else { MAX_TASK_LENGTH as int }),
    {
        let cutoff: i64 = now - REPETITION_WINDOW_SECS;
        let ghost h0 = self.signatures@;
        self.signatures.push(ActionSignature::from_action(action));
        self.timestamps.push(action.timestamp);
        let ghost hp = spec_seq_view(self.signatures@);
        let ghost tp = self.timestamps@;
        proof {
            assert(hp =~= spec_seq_view(h0).push(spec_action_sig(*action)));
            lemma_leading_old_bound(tp, cutoff);
        }
        let n = self.timestamps.len();
        let mut p: usize = 0;
        assert(tp.skip(0) =~= tp);
        while p < n && self.timestamps[p] < cutoff
            invariant
                n == self.timestamps@.len(),
                tp == self.timestamps@,
                p <= n,
                spec_leading_old(tp, cutoff) == p + spec_leading_old(tp.skip(p as int), cutoff),
            decreases n - p,
        {
            assert(tp.skip(p as int).drop_first() =~= tp.skip(p + 1));
            p = p + 1;
        }
        proof {
            if p < n {
                assert(tp.skip(p as int)[0] == tp[p as int]);
            } else {
                assert(tp.skip(p as int).len() == 0);
            }
        }
        let mut sigs: Vec<ActionSignature> = Vec::new();
        let mut ts: Vec<i64> = Vec::new();
        let mut j: usize = p;
        while j < n
            invariant
                n == self.timestamps@.len(),
                n == self.signatures@.len(),
                hp == spec_seq_view(self.signatures@),
                tp == self.timestamps@,
                p <= j <= n,
                spec_seq_view(sigs@) == hp.subrange(p as int, j as int),
                ts@ == tp.subrange(p as int, j as int),
            decreases n - j,
        {
            let ghost before = sigs@;
            sigs.push(copy_signature(&self.signatures[j]));
            ts.push(self.timestamps[j]);
            proof {
                assert(spec_seq_view(sigs@) =~= spec_seq_view(before).push(spec_sig_view(self.signatures@[j as int])));
                assert(hp.subrange(p as int, j + 1) =~= hp.subrange(p as int, j as int).push(hp[j as int]));
                assert(ts@ =~= tp.subrange(p as int, j + 1));
            }
            j = j + 1;
        }
        self.signatures = sigs;
        self.timestamps = ts;
        let ghost h = self.history();
        proof {
            assert(h =~= hp.skip(p as int));
            assert(self.timestamps@ =~= tp.skip(p as int));
        }
        let hl = self.signatures.len();
        let max_len: usize = if hl < MAX_TASK_LENGTH { hl } else { MAX_TASK_LENGTH };
        let mut tasks: Vec<(Vec<ActionSignature>, usize)> = Vec::new();
        let mut len: usize = MIN_PATTERN_LENGTH;
        while len <= max_len
            invariant
                self.wf(),
                h == self.history(),
                hl == self.signatures@.len(),
                h.len() == hl,
                max_len == (if hl < MAX_TASK_LENGTH { hl } else { MAX_TASK_LENGTH }),
                MIN_PATTERN_LENGTH <= len <= max_len + 1 || (len == MIN_PATTERN_LENGTH && max_len < MIN_PATTERN_LENGTH),
                tasks@.map_values(|t: (Vec<ActionSignature>, usize)| (spec_seq_view(t.0@), t.1 as nat))
                    == spec_repetitions(h, len - 1),
            decreases max_len + 1 - len,
        {
            let mut key: Vec<ActionSignature> = Vec::new();
            let mut j: usize = hl - len;
            while j < hl
                invariant
                    hl == self.signatures@.len(),
                    len <= hl,
                    hl - len <= j <= hl,
                    spec_seq_view(key@) == spec_seq_view(self.signatures@.subrange(hl - len, j as int)),
                    key@.len() == j - (hl - len),
                decreases hl - j,
            {
                let ghost before = key@;
                key.push(copy_signature(&self.signatures[j]));
                proof {
                    assert(spec_seq_view(key@) =~= spec_seq_view(before).push(spec_sig_view(self.signatures@[j as int])));
                    assert(spec_seq_view(self.signatures@.subrange(hl - len, j + 1)) =~= spec_seq_view(self.signatures@.subrange(hl - len, j as int)).push(spec_sig_view(self.signatures@[j as int])));
                }
                j = j + 1;
            }
            let ghost kv = spec_seq_view(key@);
            proof {
                assert(kv =~= spec_suffix(h, len as int));
            }
            let c = count_sequence_occurrences(self.signatures.as_slice(), key.as_slice());
            proof {
                lemma_count_windows_view(self.signatures@, key@, hl - len + 1);
            }
            if c >= MIN_REPETITIONS {
                let ghost before = tasks@;
                tasks.push((key, c));
                proof {
                    assert(tasks@.map_values(|t: (Vec<ActionSignature>, usize)| (spec_seq_view(t.0@), t.1 as nat))
                        =~= before.map_values(|t: (Vec<ActionSignature>, usize)| (spec_seq_view(t.0@), t.1 as nat)).push((kv, c as nat)));
                }
            }
            len = len + 1;
        }
        proof {
            if max_len < MIN_PATTERN_LENGTH {
                assert(spec_repetitions(h, max_len as int) =~= Seq::<(SeqKey, nat)>::empty());
            }
        }
        tasks
    }
}

/// The advice for automating a task: a script for copying between files,
/// clipboard tools, batch file processing, workflow tools across several
/// applications, or shortcuts.
pub open spec fn spec_automation_suggestion(actions: Seq<ActionSignature>) -> Seq<char> {
    let copy_paste = exists|i: int| 0 <= i < actions.len() && (#[trigger] actions[i].action_type is Copy || actions[i].action_type is Paste);
    let file_ops = exists|i: int| 0 <= i < actions.len() && (#[trigger] actions[i].action_type is FileOpen || actions[i].action_type is FileSave);
    if copy_paste && file_ops {
        "Consider using a script to automate copying data between files"@
    } else if copy_paste {
        "Consider using clipboard management tools or macros"@
    } else if file_ops {
        "Consider using batch processing or file automation scripts"@
    } else if spec_unique(spec_apps(actions)).len() > 1 {
        "Consider using workflow automation tools like Zapier or n8n"@
    } else {
        "Consider using keyboard shortcuts or app-specific automation"@
    }
}

/// The advice for automating a task (see `spec_automation_suggestion`).
pub fn generate_automation_suggestion(actions: &[ActionSignature]) -> (s: &'static str)
    ensures
        s@ == spec_automation_suggestion(actions@),
{
    let mut copy_paste = false;
    let mut file_ops = false;
    let mut i: usize = 0;
    while i < actions.len()
        invariant
            i <= actions@.len(),
            copy_paste == exists|k: int| 0 <= k < i && (#[trigger] actions@[k].action_type is Copy || actions@[k].action_type is Paste),
            file_ops == exists|k: int| 0 <= k < i && (#[trigger] actions@[k].action_type is FileOpen || actions@[k].action_type is FileSave),
        decreases actions@.len() - i,
    {
        match &actions[i].action_type {
            ActionType::Copy | ActionType::Paste => { copy_paste = true; },
            ActionType::FileOpen | ActionType::FileSave => { file_ops = true; },
            _ => {},
        }
        i = i + 1;
    }
    if copy_paste && file_ops {
        return "Consider using a script to automate copying data between files";
    }
    if copy_paste {
        return "Consider using clipboard management tools or macros";
    }
    if file_ops {
        return "Consider using batch processing or file automation scripts";
    }
    let apps = unique_apps(actions);
    if apps.len() > 1 {
        "Consider using workflow automation tools like Zapier or n8n"
    } else {
        "Consider using keyboard shortcuts or app-specific automation"
    }
}

/// Number of task activity labels.
pub const TASK_LABELS: usize = 7;

/// The activity label (by index) of an action in a task name.
pub open spec fn spec_task_label(t: ActionType) -> nat {
    match t {
        ActionType::Copy => 0,
        ActionType::Paste => 1,
        ActionType::FileSave => 2,
        ActionType::FileOpen => 3,
        ActionType::AppSwitch => 4,
        ActionType::Typing => 5,
        _ => 6,
    }
}

/// The text of an activity label.
pub open spec fn spec_label_text(l: nat) -> Seq<char> {
    if l == 0 { "Copying"@ }
    else if l == 1 { "Pasting"@ }
    else if l == 2 { "Saving files"@ }
    else if l == 3 { "Opening files"@ }
    else if l == 4 { "Switching apps"@ }
    else if l == 5 { "Typing"@ }
    else { "Working"@ }
}

/// Number of actions with an activity label.
pub open spec fn spec_label_count(actions: Seq<ActionSignature>, l: nat) -> nat
    decreases actions.len(),
{
    if actions.len() == 0 {
        0
    } else {
        spec_label_count(actions.drop_last(), l) + if spec_task_label(actions.last().action_type) == l { 1nat } else { 0nat }
    }
}

/// The most frequent activity label among the first `upto` labels, the
/// first one on ties.
pub open spec fn spec_dominant_label(actions: Seq<ActionSignature>, upto: nat) -> nat
    decreases upto,
{
    if upto <= 1 {
        0
    } else {
        let b = spec_dominant_label(actions, (upto - 1) as nat);
        if spec_label_count(actions, (upto - 1) as nat) > spec_label_count(actions, b) { (upto - 1) as nat } else { b }
    }
}

/// The name of a repeated task: its dominant activity, then the one
/// application it happens in or the number of applications.
pub open spec fn spec_task_name(actions: Seq<ActionSignature>) -> Seq<char> {
    if actions.len() == 0 {
        "Unknown Task"@
    } else {
        let dominant = spec_label_text(spec_dominant_label(actions, TASK_LABELS as nat));
        let u = spec_unique(spec_apps(actions));
        if u.len() == 1 {
            dominant + " in "@ + u[0]
        } else {
            dominant + " across "@ + spec_decimal(u.len()) + " apps"@
        }
    }
}

fn task_label(t: &ActionType) -> (l: usize)
    ensures
        l == spec_task_label(*t),
{
    match t {
        ActionType::Copy => 0,
        ActionType::Paste => 1,
        ActionType::FileSave => 2,
        ActionType::FileOpen => 3,
        ActionType::AppSwitch => 4,
        ActionType::Typing => 5,
        _ => 6,
    }
}

fn label_text(l: usize) -> (s: &'static str)
    ensures
        s@ == spec_label_text(l as nat),
{
    if l == 0 { "Copying" }
    else if l == 1 { "Pasting" }
    else if l == 2 { "Saving files" }
    else if l == 3 { "Opening files" }
    else if l == 4 { "Switching apps" }
    else if l == 5 { "Typing" }
    else { "Working" }
}

proof fn lemma_label_count_bound(actions: Seq<ActionSignature>, l: nat)
    ensures
        spec_label_count(actions, l) <= actions.len(),
    decreases actions.len(),
{
    if actions.len() > 0 {
        lemma_label_count_bound(actions.drop_last(), l);
    }
}

/// A readable name for a repeated task (see `spec_task_name`).
pub fn generate_task_name(actions: &[ActionSignature]) -> (name: String)
    ensures
        name@ == spec_task_name(actions@),
{
    if actions.len() == 0 {
        return String::from_str("Unknown Task");
    }
    let mut counts: Vec<usize> = vec![0usize, 0usize, 0usize, 0usize, 0usize, 0usize, 0usize];
    let mut i: usize = 0;
    while i < actions.len()
        invariant
            i <= actions@.len(),
            counts@.len() == TASK_LABELS,
            forall|l: int| 0 <= l < TASK_LABELS ==> #[trigger] counts@[l] == spec_label_count(actions@.take(i as int), l as nat),
        decreases actions@.len() - i,
    {
        let l = task_label(&actions[i].action_type);
        proof {
            assert(actions@.take(i + 1).drop_last() =~= actions@.take(i as int));
            assert(actions@.take(i + 1).last() == actions@[i as int]);
            lemma_label_count_bound(actions@.take(i as int), l as nat);
        }
        let c = counts[l];
        counts.set(l, c + 1);
        i = i + 1;
    }
    assert(actions@.take(actions@.len() as int) =~= actions@);
    let mut best: usize = 0;
    let mut k: usize = 1;
    while k < TASK_LABELS
        invariant
            1 <= k <= TASK_LABELS,
            counts@.len() == TASK_LABELS,
            forall|l: int| 0 <= l < TASK_LABELS ==> #[trigger] counts@[l] == spec_label_count(actions@, l as nat),
            best == spec_dominant_label(actions@, k as nat),
            best < k,
        decreases TASK_LABELS - k,
    {
        if counts[k] > counts[best] {
            best = k;
        }
        k = k + 1;
    }
    let dominant = label_text(best);
    let apps = unique_apps(actions);
    proof {
        assert(spec_strings(apps@).len() == apps@.len());
    }
    if apps.len() == 1 {
        join3(dominant, " in ", apps[0].as_str())
    } else {
        let n = crate::text::decimal_string(apps.len() as u64);
        String::from_str(dominant).concat(" across ").concat(n.as_str()).concat(" apps")
    }
}

/// The explanation of a prediction from a pattern seen `occurrences` times,
/// with the number of other candidate predictions.
pub open spec fn spec_reasoning(pattern_name: Seq<char>, occurrences: usize, alternatives: usize) -> Seq<char> {
    if alternatives == 0 {
        "Based on '"@ + pattern_name + "' pattern (seen "@ + spec_decimal(occurrences as nat) + " times)"@
    } else {
        "Based on '"@ + pattern_name + "' pattern (seen "@ + spec_decimal(occurrences as nat) + " times, "@
            + spec_decimal(alternatives as nat) + " alternatives)"@
    }
}

/// Explains a prediction (see `spec_reasoning`).
pub fn generate_reasoning(pattern_name: &str, occurrences: usize, alternatives: usize) -> (s: String)
    ensures
        s@ == spec_reasoning(pattern_name@, occurrences, alternatives),
{
    let occ = decimal_string(occurrences as u64);
    let head = String::from_str("Based on '").concat(pattern_name).concat("' pattern (seen ").concat(occ.as_str());
    if alternatives == 0 {
        head.concat(" times)")
    } else {
        let alt = decimal_string(alternatives as u64);
        head.concat(" times, ").concat(alt.as_str()).concat(" alternatives)")
    }
}

/// A pattern that opens or saves a file carries the tag `file-operations`.
pub proof fn lemma_file_actions_tagged(sequence: Seq<ActionSignature>, i: int)
    requires
        0 <= i < sequence.len(),
        sequence[i].action_type is FileOpen || sequence[i].action_type is FileSave,
    ensures
        spec_tags(sequence).contains("file-operations"@),
{
    let u = spec_unique(spec_apps(sequence));
    let a = u.push("file-operations"@);
    assert(a[u.len() as int] == "file-operations"@);
    if exists|j: int| 0 <= j < sequence.len() && (#[trigger] sequence[j].action_type is Copy || sequence[j].action_type is Paste) {
        assert(a.push("clipboard"@)[u.len() as int] == "file-operations"@);
    }
}

/// Every name of a list appears among its distinct names.
proof fn lemma_unique_contains(names: Seq<Seq<char>>, i: int)
    requires
        0 <= i < names.len(),
    ensures
        spec_unique(names).contains(names[i]),
    decreases names.len(),
{
    let init = names.drop_last();
    let prev = spec_unique(init);
    if i < names.len() - 1 {
        lemma_unique_contains(init, i);
        assert(init[i] == names[i]);
        if !prev.contains(names.last()) {
            let w = choose|w: int| 0 <= w < prev.len() && prev[w] == names[i];
            assert(prev.push(names.last())[w] == names[i]);
        }
    } else {
        if !prev.contains(names.last()) {
            assert(prev.push(names.last())[prev.len() as int] == names.last());
        }
    }
}

/// The tags of a pattern name each of its applications, and carry
/// `clipboard` when it copies or pastes.
pub proof fn lemma_tags_name_apps_and_clipboard(sequence: Seq<ActionSignature>, i: int)
    requires
        0 <= i < sequence.len(),
    ensures
        spec_tags(sequence).contains(sequence[i].app_name@),
        sequence[i].action_type is Copy || sequence[i].action_type is Paste
            ==> spec_tags(sequence).contains("clipboard"@),
{
    let names = spec_apps(sequence);
    lemma_unique_contains(names, i);
    let u = spec_unique(names);
    let w = choose|w: int| 0 <= w < u.len() && u[w] == names[i];
    let a = if exists|j: int| 0 <= j < sequence.len() && (#[trigger] sequence[j].action_type is FileOpen || sequence[j].action_type is FileSave) {
        u.push("file-operations"@)
    } else {
        u
    };
    assert(a[w] == sequence[i].app_name@);
    if exists|j: int| 0 <= j < sequence.len() && (#[trigger] sequence[j].action_type is Copy || sequence[j].action_type is Paste) {
        assert(a.push("clipboard"@)[w] == sequence[i].app_name@);
        assert(a.push("clipboard"@)[a.len() as int] == "clipboard"@);
    }
}

} // verus!
