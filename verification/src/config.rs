//! Application configuration and its manager.
use vstd::prelude::*;

verus! {

/// Allowed and blocked applications.
pub struct AppsConfig {
    pub allowlist: Vec<String>,
    pub blocklist: Vec<String>,
}

/// Trigger timings, in seconds.
#[derive(Debug, Clone, Copy, PartialEq, Eq, Structural)]
pub struct TriggersConfig {
    pub idle_threshold_s: u64,
    pub cooldown_accept_s: u64,
    pub cooldown_dismiss_s: u64,
}

/// Language model settings (`provider` is "openai", "anthropic" or "ollama").
pub struct LLMConfig {
    pub provider: String,
    pub model: String,
    pub api_key: Option<String>,
}

/// Keyboard shortcuts.
pub struct ShortcutsConfig {
    pub show: String,
    pub chat: String,
}

/// Screen capture settings.
#[derive(Debug, Clone, Copy, PartialEq, Eq, Structural)]
pub struct CapturesConfig {
    pub enabled: bool,
    pub min_interval_s: u64,
}

/// Global configuration.
pub struct AppConfig {
    pub apps: AppsConfig,
    pub triggers: TriggersConfig,
    pub llm: LLMConfig,
    pub shortcuts: ShortcutsConfig,
    pub captures: CapturesConfig,
}

/// Data retention period ("never", "1h", "24h", "7d" or "30d").
pub struct RetentionConfig {
    pub period: String,
}

/// Privacy statistics about the data kept on disk.
#[derive(Debug, Clone)]
pub struct PrivacyStats {
    pub screenshots_count: usize,
    pub screenshots_size_bytes: u64,
    pub contexts_count: usize,
    pub db_size_bytes: u64,
    pub data_dir: String,
}

/// The views of the strings of a list.
pub open spec fn spec_strings(v: Seq<String>) -> Seq<Seq<char>> {
    v.map_values(|s: String| s@)
}

/// The views of an optional string.
pub open spec fn spec_opt_string(o: Option<String>) -> Option<Seq<char>> {
    match o {
        Some(s) => Some(s@),
        None => None,
    }
}

/// Two configurations hold the same values.
pub open spec fn spec_same_config(a: AppConfig, b: AppConfig) -> bool {
    &&& spec_strings(a.apps.allowlist@) == spec_strings(b.apps.allowlist@)
    &&& spec_strings(a.apps.blocklist@) == spec_strings(b.apps.blocklist@)
    &&& a.triggers == b.triggers
    &&& a.llm.provider@ == b.llm.provider@
    &&& a.llm.model@ == b.llm.model@
    &&& spec_opt_string(a.llm.api_key) == spec_opt_string(b.llm.api_key)
    &&& a.shortcuts.show@ == b.shortcuts.show@
    &&& a.shortcuts.chat@ == b.shortcuts.chat@
    &&& a.captures == b.captures
}

/// The default configuration: no allow or block list; idle threshold 12 s,
/// cool-downs 45 s and 90 s; Ollama with llama3 and no key; shortcuts
/// CmdOrCtrl+Shift+S and CmdOrCtrl+K; captures off, at least 60 s apart.
pub open spec fn spec_is_default_config(c: AppConfig) -> bool {
    &&& c.apps.allowlist@.len() == 0
    &&& c.apps.blocklist@.len() == 0
    &&& c.triggers == TriggersConfig { idle_threshold_s: 12, cooldown_accept_s: 45, cooldown_dismiss_s: 90 }
    &&& c.llm.provider@ == "ollama"@
    &&& c.llm.model@ == "llama3"@
    &&& c.llm.api_key is None
    &&& c.shortcuts.show@ == "CmdOrCtrl+Shift+S"@
    &&& c.shortcuts.chat@ == "CmdOrCtrl+K"@
    &&& c.captures == CapturesConfig { enabled: false, min_interval_s: 60 }
}

/// Copies a list of strings.
fn clone_strings(v: &Vec<String>) -> (r: Vec<String>)
    ensures
        spec_strings(r@) == spec_strings(v@),
{
    let mut r: Vec<String> = Vec::new();
    let mut i: usize = 0;
    while i < v.len()
        invariant
            0 <= i <= v@.len(),
            r@.len() == i,
            forall|k: int| 0 <= k < i ==> (#[trigger] r@[k])@ == v@[k]@,
        decreases v@.len() - i,
    {
        let c = v[i].clone();
        r.push(c);
        i = i + 1;
    }
    assert(spec_strings(r@) =~= spec_strings(v@));
    r
}

impl AppConfig {
    /// A copy of the configuration.
    pub fn copy(&self) -> (r: AppConfig)
        ensures
            spec_same_config(r, *self),
    {
        AppConfig {
            apps: AppsConfig {
                allowlist: clone_strings(&self.apps.allowlist),
                blocklist: clone_strings(&self.apps.blocklist),
            },
            triggers: self.triggers,
            llm: LLMConfig {
                provider: self.llm.provider.clone(),
                model: self.llm.model.clone(),
                api_key: match &self.llm.api_key {
                    Some(k) => Some(k.clone()),
                    None => None,
                },
            },
            shortcuts: ShortcutsConfig { show: self.shortcuts.show.clone(), chat: self.shortcuts.chat.clone() },
            captures: self.captures,
        }
    }
}

impl Default for AppConfig {
    fn default() -> (c: Self)
        ensures
            spec_is_default_config(c),
    {
        AppConfig {
            apps: AppsConfig { allowlist: Vec::new(), blocklist: Vec::new() },
            triggers: TriggersConfig { idle_threshold_s: 12, cooldown_accept_s: 45, cooldown_dismiss_s: 90 },
            llm: LLMConfig {
                provider: String::from_str("ollama"),
                model: String::from_str("llama3"),
                api_key: None,
            },
            shortcuts: ShortcutsConfig {
                show: String::from_str("CmdOrCtrl+Shift+S"),
                chat: String::from_str("CmdOrCtrl+K"),
            },
            captures: CapturesConfig { enabled: false, min_interval_s: 60 },
        }
    }
}

/// Holds the current configuration and the path of the file it lives in.
pub struct ConfigManager {
    config: AppConfig,
    config_file: String,
}

impl ConfigManager {
    pub closed spec fn current(&self) -> AppConfig {
        self.config
    }

    pub closed spec fn path(&self) -> Seq<char> {
        self.config_file@
    }

    /// Creates the manager for the configuration file `config_file`, with the
    /// configuration read from it (`None` when the file is absent or does
    /// not parse: the defaults are used).
    pub fn new(config_file: String, loaded: Option<AppConfig>) -> (m: Self)
        ensures
            m.path() == config_file@,
            match loaded {
                Some(c) => m.current() == c,
                None => spec_is_default_config(m.current()),
            },
    {
        let config = match loaded {
            Some(c) => c,
            None => AppConfig::default(),
        };
        ConfigManager { config, config_file }
    }

    /// A copy of the current configuration.
    pub fn get_config(&self) -> (r: Result<AppConfig, String>)
        ensures
            r matches Ok(c) && spec_same_config(c, self.current()),
    {
        Ok(self.config.copy())
    }

    /// Replaces the configuration (the caller then writes it to the file).
    pub fn update_config(&mut self, new_config: AppConfig) -> (r: Result<(), String>)
        ensures
            r is Ok,
            final(self).current() == new_config,
            final(self).path() == old(self).path(),
    {
        self.config = new_config;
        Ok(())
    }

    /// The configuration file's path.
    pub fn get_config_path(&self) -> (p: String)
        ensures
            p@ == self.path(),
    {
        self.config_file.clone()
    }
}

} // verus!
