//! Feature flags with dependency tracking: Smart Triggers depend on Idle
//! Detection, and the flags never reach a state where that dependency is
//! broken.
use vstd::prelude::*;
use crate::text::{to_lowercase, spec_to_lowercase};

verus! {

/// Features of the application that can be switched on and off.
#[derive(Debug, Clone, Copy, PartialEq, Eq, Structural)]
pub enum Feature {
    IdleDetection,
    Screenshot,
    SmartTriggers,
    Telemetry,
    UseIntentGate,
}

impl Feature {
    /// Human readable name of a feature.
    pub open spec fn spec_display_name(self) -> Seq<char> {
        match self {
            Feature::IdleDetection => "Idle Detection"@,
            Feature::Screenshot => "Screenshot"@,
            Feature::SmartTriggers => "Smart Triggers"@,
            Feature::Telemetry => "Telemetry"@,
            Feature::UseIntentGate => "Intent Gate"@,
        }
    }

    pub fn display_name(&self) -> (name: &'static str)
        ensures
            name@ == self.spec_display_name(),
    {
        match self {
            Feature::IdleDetection => "Idle Detection",
            Feature::Screenshot => "Screenshot",
            Feature::SmartTriggers => "Smart Triggers",
            Feature::Telemetry => "Telemetry",
            Feature::UseIntentGate => "Intent Gate",
        }
    }
}

/// Snapshot of every feature's state.
#[derive(Debug, Clone, Copy, PartialEq, Eq, Structural)]
pub struct FeaturesState {
    pub idle_detection: bool,
    pub screenshot: bool,
    pub smart_triggers: bool,
    pub telemetry: bool,
    pub use_intent_gate: bool,
}

/// Number of `true` values among the five flags.
pub open spec fn count_true(s: FeaturesState) -> nat {
    (if s.idle_detection { 1nat } else { 0nat })
    + (if s.screenshot { 1nat } else { 0nat })
    + (if s.smart_triggers { 1nat } else { 0nat })
    + (if s.telemetry { 1nat } else { 0nat })
    + (if s.use_intent_gate { 1nat } else { 0nat })
}

impl FeaturesState {
    /// Whether the given feature is on in this snapshot.
    pub open spec fn get(self, feature: Feature) -> bool {
        match feature {
            Feature::IdleDetection => self.idle_detection,
            Feature::Screenshot => self.screenshot,
            Feature::SmartTriggers => self.smart_triggers,
            Feature::Telemetry => self.telemetry,
            Feature::UseIntentGate => self.use_intent_gate,
        }
    }

    /// The snapshot with one feature set to `value`.
    pub open spec fn set(self, feature: Feature, value: bool) -> FeaturesState {
        match feature {
            Feature::IdleDetection => FeaturesState { idle_detection: value, ..self },
            Feature::Screenshot => FeaturesState { screenshot: value, ..self },
            Feature::SmartTriggers => FeaturesState { smart_triggers: value, ..self },
            Feature::Telemetry => FeaturesState { telemetry: value, ..self },
            Feature::UseIntentGate => FeaturesState { use_intent_gate: value, ..self },
        }
    }

    /// The dependency rule: Smart Triggers only run on top of Idle Detection.
    pub open spec fn dependencies_hold(self) -> bool {
        self.smart_triggers ==> self.idle_detection
    }

    /// Counts the enabled features.
    pub fn enabled_count(&self) -> (n: usize)
        ensures
            n == count_true(*self),
    {
        let mut n: usize = 0;
        if self.idle_detection {
            n = n + 1;
        }
        if self.screenshot {
            n = n + 1;
        }
        if self.smart_triggers {
            n = n + 1;
        }
        if self.telemetry {
            n = n + 1;
        }
        if self.use_intent_gate {
            n = n + 1;
        }
        n
    }

    /// Whether every feature is enabled.
    pub fn all_enabled(&self) -> (b: bool)
        ensures
            b == (self.idle_detection && self.screenshot && self.smart_triggers && self.telemetry
                && self.use_intent_gate),
    {
        self.idle_detection && self.screenshot && self.smart_triggers && self.telemetry
            && self.use_intent_gate
    }
}

/// The boolean denoted by an environment value once lower-cased:
/// `1/true/yes/on` and `0/false/no/off`; anything else denotes nothing.
pub open spec fn spec_bool_word(w: Seq<char>) -> Option<bool> {
    if w == "1"@ || w == "true"@ || w == "yes"@ || w == "on"@ {
        Some(true)
    } else if w == "0"@ || w == "false"@ || w == "no"@ || w == "off"@ {
        Some(false)
    } else {
        None
    }
}

/// The value of the variable `key` in an environment given as a list of
/// pairs (the first pair with that key wins).
pub open spec fn spec_env_lookup(vars: Seq<(String, String)>, key: Seq<char>) -> Option<Seq<char>>
    decreases vars.len(),
{
    if vars.len() == 0 {
        None
    } else if vars[0].0@ == key {
        Some(vars[0].1@)
    } else {
        spec_env_lookup(vars.drop_first(), key)
    }
}

/// The boolean an environment gives for `key`, or `default` where the
/// variable is unset or does not read as a boolean.
pub open spec fn spec_env_bool(vars: Seq<(String, String)>, key: Seq<char>, default: bool) -> bool {
    match spec_env_lookup(vars, key) {
        None => default,
        Some(v) => match spec_bool_word(spec_to_lowercase(v)) {
            Some(b) => b,
            None => default,
        },
    }
}

/// Reads a lower-cased word as a boolean.
pub fn parse_bool_word(w: &str) -> (r: Option<bool>)
    ensures
        r == spec_bool_word(w@),
{
    let s = String::from_str(w);
    if s == String::from_str("1") || s == String::from_str("true") || s == String::from_str("yes")
        || s == String::from_str("on") {
        Some(true)
    } else if s == String::from_str("0") || s == String::from_str("false") || s == String::from_str(
        "no",
    ) || s == String::from_str("off") {
        Some(false)
    } else {
        None
    }
}

/// Looks a variable up in an environment given as a list of pairs.
pub fn env_lookup<'a>(vars: &'a Vec<(String, String)>, key: &str) -> (r: Option<&'a String>)
    ensures
        match r {
            None => spec_env_lookup(vars@, key@) is None,
            Some(v) => spec_env_lookup(vars@, key@) == Some(v@),
        },
{
    let k = String::from_str(key);
    let mut i: usize = 0;
    assert(vars@.skip(0) =~= vars@);
    while i < vars.len()
        invariant
            0 <= i <= vars@.len(),
            k@ == key@,
            spec_env_lookup(vars@, key@) == spec_env_lookup(vars@.skip(i as int), key@),
        decreases vars@.len() - i,
    {
        assert(vars@.skip(i as int).drop_first() =~= vars@.skip(i + 1));
        if vars[i].0 == k {
            return Some(&vars[i].1);
        }
        i = i + 1;
    }
    None
}

/// Parses an environment variable as a boolean, falling back to `default`.
pub fn env_bool(vars: &Vec<(String, String)>, key: &str, default: bool) -> (b: bool)
    ensures
        b == spec_env_bool(vars@, key@, default),
{
    match env_lookup(vars, key) {
        None => default,
        Some(v) => {
            let lower = to_lowercase(v.as_str());
            match parse_bool_word(lower.as_str()) {
                Some(b) => b,
                None => default,
            }
        },
    }
}

/// Feature flag manager; Smart Triggers can only be on while Idle Detection is.
pub struct FeatureFlags {
    idle_detection: bool,
    screenshot: bool,
    smart_triggers: bool,
    telemetry: bool,
    use_intent_gate: bool,
}

impl View for FeatureFlags {
    type V = FeaturesState;

    closed spec fn view(&self) -> FeaturesState {
        FeaturesState {
            idle_detection: self.idle_detection,
            screenshot: self.screenshot,
            smart_triggers: self.smart_triggers,
            telemetry: self.telemetry,
            use_intent_gate: self.use_intent_gate,
        }
    }
}

/// The flags built from an environment, before the dependency rule applies.
pub open spec fn spec_env_flags(vars: Seq<(String, String)>) -> FeaturesState {
    FeaturesState {
        idle_detection: spec_env_bool(vars, "SL_IDLE_ENABLED"@, true),
        screenshot: spec_env_bool(vars, "SL_SCREENSHOT_ENABLED"@, false),
        smart_triggers: spec_env_bool(vars, "SL_SMART_TRIGGERS_ENABLED"@, true),
        telemetry: spec_env_bool(vars, "SL_TELEMETRY"@, true),
        use_intent_gate: spec_env_bool(vars, "SL_USE_INTENT_GATE"@, true),
    }
}

/// A requested state with Smart Triggers switched off when Idle Detection is off.
pub open spec fn spec_enforce_dependencies(s: FeaturesState) -> FeaturesState {
    if s.smart_triggers && !s.idle_detection {
        FeaturesState { smart_triggers: false, ..s }
    } else {
        s
    }
}

/// The state after disabling a feature (cascading to Smart Triggers).
pub open spec fn spec_disable(s: FeaturesState, feature: Feature) -> FeaturesState {
    match feature {
        Feature::IdleDetection => FeaturesState { idle_detection: false, smart_triggers: false, ..s },
        _ => s.set(feature, false),
    }
}

/// The state after enabling a feature (refused for Smart Triggers without Idle Detection).
pub open spec fn spec_enable(s: FeaturesState, feature: Feature) -> FeaturesState {
    match feature {
        Feature::SmartTriggers => if s.idle_detection { s.set(feature, true) } else { s },
        _ => s.set(feature, true),
    }
}

impl FeatureFlags {
    #[verifier::type_invariant]
    spec fn inv(self) -> bool {
        self.smart_triggers ==> self.idle_detection
    }

    /// Builds the flags from explicit values, then applies the dependency rule.
    pub fn from_values(state: FeaturesState) -> (flags: Self)
        ensures
            flags@ == spec_enforce_dependencies(state),
    {
        let smart = state.smart_triggers && state.idle_detection;
        FeatureFlags {
            idle_detection: state.idle_detection,
            screenshot: state.screenshot,
            smart_triggers: smart,
            telemetry: state.telemetry,
            use_intent_gate: state.use_intent_gate,
        }
    }

    /// Builds the flags from the process environment (given as its list of
    /// variables): `SL_IDLE_ENABLED` (default on), `SL_SCREENSHOT_ENABLED`
    /// (default off), `SL_SMART_TRIGGERS_ENABLED`, `SL_TELEMETRY` and
    /// `SL_USE_INTENT_GATE` (default on); Smart Triggers are switched off when
    /// Idle Detection is off.
    pub fn from_env(vars: &Vec<(String, String)>) -> (flags: Self)
        ensures
            flags@ == spec_enforce_dependencies(spec_env_flags(vars@)),
    {
        let state = FeaturesState {
            idle_detection: env_bool(vars, "SL_IDLE_ENABLED", true),
            screenshot: env_bool(vars, "SL_SCREENSHOT_ENABLED", false),
            smart_triggers: env_bool(vars, "SL_SMART_TRIGGERS_ENABLED", true),
            telemetry: env_bool(vars, "SL_TELEMETRY", true),
            use_intent_gate: env_bool(vars, "SL_USE_INTENT_GATE", true),
        };
        Self::from_values(state)
    }

    /// Whether a feature is enabled.
    pub fn is_enabled(&self, feature: Feature) -> (b: bool)
        ensures
            b == self@.get(feature),
            self@.dependencies_hold(),
    {
        proof {
            use_type_invariant(self);
        }
        match feature {
            Feature::IdleDetection => self.idle_detection,
            Feature::Screenshot => self.screenshot,
            Feature::SmartTriggers => self.smart_triggers,
            Feature::Telemetry => self.telemetry,
            Feature::UseIntentGate => self.use_intent_gate,
        }
    }

    /// Disables a feature; disabling Idle Detection also disables Smart Triggers.
    pub fn disable(&mut self, feature: Feature)
        ensures
            final(self)@ == spec_disable(old(self)@, feature),
            final(self)@.dependencies_hold(),
    {
        proof {
            use_type_invariant(&*self);
        }
        match feature {
            Feature::IdleDetection => {
                self.smart_triggers = false;
                self.idle_detection = false;
            },
            Feature::Screenshot => {
                self.screenshot = false;
            },
            Feature::SmartTriggers => {
                self.smart_triggers = false;
            },
            Feature::Telemetry => {
                self.telemetry = false;
            },
            Feature::UseIntentGate => {
                self.use_intent_gate = false;
            },
        }
    }

    /// Enables a feature; Smart Triggers stay off while Idle Detection is off.
    pub fn enable(&mut self, feature: Feature)
        ensures
            final(self)@ == spec_enable(old(self)@, feature),
            final(self)@.dependencies_hold(),
    {
        proof {
            use_type_invariant(&*self);
        }
        match feature {
            Feature::SmartTriggers => {
                if self.idle_detection {
                    self.smart_triggers = true;
                }
            },
            Feature::IdleDetection => {
                self.idle_detection = true;
            },
            Feature::Screenshot => {
                self.screenshot = true;
            },
            Feature::Telemetry => {
                self.telemetry = true;
            },
            Feature::UseIntentGate => {
                self.use_intent_gate = true;
            },
        }
    }

    /// Snapshot of all features.
    pub fn get_state(&self) -> (s: FeaturesState)
        ensures
            s == self@,
            s.dependencies_hold(),
    {
        proof {
            use_type_invariant(self);
        }
        FeaturesState {
            idle_detection: self.idle_detection,
            screenshot: self.screenshot,
            smart_triggers: self.smart_triggers,
            telemetry: self.telemetry,
            use_intent_gate: self.use_intent_gate,
        }
    }

    /// Whether a feature's dependencies are satisfied.
    pub fn can_enable(&self, feature: Feature) -> (b: bool)
        ensures
            b == (feature == Feature::SmartTriggers ==> self@.idle_detection),
    {
        match feature {
            Feature::SmartTriggers => self.idle_detection,
            _ => true,
        }
    }

    /// The features a feature depends on.
    pub fn get_dependencies(&self, feature: Feature) -> (deps: Vec<Feature>)
        ensures
            deps@ == (if feature == Feature::SmartTriggers {
                seq![Feature::IdleDetection]
            } else {
                Seq::<Feature>::empty()
            }),
    {
        let mut deps = Vec::new();
        if let Feature::SmartTriggers = feature {
            deps.push(Feature::IdleDetection);
        }
        deps
    }
}

/// Enabling a feature whose dependencies hold makes it enabled, and every
/// other feature keeps its state.
pub proof fn lemma_enable_when_allowed(s: FeaturesState, feature: Feature)
    requires
        s.dependencies_hold(),
        feature == Feature::SmartTriggers ==> s.idle_detection,
    ensures
        spec_enable(s, feature).get(feature),
        forall|g: Feature| g != feature ==> spec_enable(s, feature).get(g) == s.get(g),
        spec_enable(s, feature).dependencies_hold(),
{
}

/// Disabling a feature turns it off, keeps the dependency rule, and only
/// touches Smart Triggers besides the feature itself.
pub proof fn lemma_disable_effects(s: FeaturesState, feature: Feature)
    requires
        s.dependencies_hold(),
    ensures
        !spec_disable(s, feature).get(feature),
        spec_disable(s, feature).dependencies_hold(),
        forall|g: Feature|
            g != feature && g != Feature::SmartTriggers ==> spec_disable(s, feature).get(g) == s.get(g),
{
}

/// Enabling a feature right after disabling it restores it, for every feature
/// other than Idle Detection (whose disabling also switched Smart Triggers off).
pub proof fn lemma_disable_then_enable(s: FeaturesState, feature: Feature)
    requires
        s.dependencies_hold(),
        s.get(feature),
        feature != Feature::IdleDetection,
    ensures
        spec_enable(spec_disable(s, feature), feature) == s,
{
}

/// Switches a feature on or off. Switching on a feature whose dependencies
/// are off is refused with `Cannot enable <name>: dependencies not
/// satisfied`, and nothing changes.
pub fn toggle_feature(flags: &mut FeatureFlags, feature: Feature, enabled: bool) -> (r: Result<(), String>)
    ensures
        enabled && (feature == Feature::SmartTriggers ==> old(flags)@.idle_detection) ==> r is Ok && final(flags)@ == spec_enable(old(flags)@, feature),
        enabled && !(feature == Feature::SmartTriggers ==> old(flags)@.idle_detection) ==> final(flags)@ == old(flags)@
            && (r matches Err(e) && e@ == "Cannot enable "@ + feature.spec_display_name() + ": dependencies not satisfied"@),
        !enabled ==> r is Ok && final(flags)@ == spec_disable(old(flags)@, feature),
{
    if enabled {
        if flags.can_enable(feature) {
            flags.enable(feature);
            Ok(())
        } else {
            Err(crate::text::join3("Cannot enable ", feature.display_name(), ": dependencies not satisfied"))
        }
    } else {
        flags.disable(feature);
        Ok(())
    }
}

/// An environment variable set to a boolean word, in any case, gives that
/// boolean whatever the default: `0`, `false`, `no` and `off` turn the flag
/// off, `1`, `true`, `yes` and `on` turn it on.
pub proof fn lemma_env_bool_reads_words(vars: Seq<(String, String)>, key: Seq<char>, default: bool, value: Seq<char>)
    requires
        spec_env_lookup(vars, key) == Some(value),
    ensures
        spec_to_lowercase(value) == "0"@ || spec_to_lowercase(value) == "false"@
            || spec_to_lowercase(value) == "no"@ || spec_to_lowercase(value) == "off"@
            ==> !spec_env_bool(vars, key, default),
        spec_to_lowercase(value) == "1"@ || spec_to_lowercase(value) == "true"@
            || spec_to_lowercase(value) == "yes"@ || spec_to_lowercase(value) == "on"@
            ==> spec_env_bool(vars, key, default),
{
    reveal_strlit("0");
    reveal_strlit("false");
    reveal_strlit("no");
    reveal_strlit("off");
    reveal_strlit("1");
    reveal_strlit("true");
    reveal_strlit("yes");
    reveal_strlit("on");
    let w = spec_to_lowercase(value);
    // No false word is a true word.
    assert("0"@[0] != "1"@[0]);
    assert("no"@[1] != "on"@[1]);
    assert("off"@.len() != "yes"@.len() || "off"@[0] != "yes"@[0]);
    assert("false"@.len() != "true"@.len());
    assert("no"@.len() != "1"@.len() && "no"@.len() != "true"@.len() && "no"@.len() != "yes"@.len());
    assert("no"@ != "on"@);
    assert("0"@.len() != "true"@.len() && "0"@.len() != "yes"@.len() && "0"@.len() != "on"@.len());
    assert("false"@.len() != "1"@.len() && "false"@.len() != "yes"@.len() && "false"@.len() != "on"@.len());
    assert("off"@.len() != "1"@.len() && "off"@.len() != "true"@.len() && "off"@.len() != "on"@.len());
    assert("off"@ != "yes"@);
}

} // verus!
