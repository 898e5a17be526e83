//! Intent detection: intent and provider names, and the heuristics used when
//! the language model cannot answer.
use vstd::prelude::*;
use crate::text::{chars_of, hex_string, join3, join_strings, lines_of, spec_hex, spec_join, spec_lines, spec_std_hash, spec_trim, std_hash, trim_str, contains_str, select_keywords, spec_contains, spec_keyword_candidates, spec_split_whitespace, spec_strings, spec_strs, spec_take_at_most, spec_to_lowercase, spec_is_ascii, spec_ascii_lowercase, spec_same_ignoring_case, lemma_same_lowercase, lemma_lowercase_word, split_whitespace, str_eq, to_lowercase, word_in_list};

verus! {

/// What the user is trying to do.
#[derive(Debug, Clone, Copy, PartialEq, Eq, Structural)]
pub enum IntentType {
    Debugging,
    Learning,
    Creating,
    Researching,
    Stuck,
    Unknown,
}

/// The intent a lower-cased word names (anything else is `Unknown`).
pub open spec fn spec_intent_of_word(w: Seq<char>) -> IntentType {
    if w == "debugging"@ {
        IntentType::Debugging
    } else if w == "learning"@ {
        IntentType::Learning
    } else if w == "creating"@ {
        IntentType::Creating
    } else if w == "researching"@ {
        IntentType::Researching
    } else if w == "stuck"@ {
        IntentType::Stuck
    } else {
        IntentType::Unknown
    }
}

impl IntentType {
    pub open spec fn spec_as_str(self) -> Seq<char> {
        match self {
            IntentType::Debugging => "debugging"@,
            IntentType::Learning => "learning"@,
            IntentType::Creating => "creating"@,
            IntentType::Researching => "researching"@,
            IntentType::Stuck => "stuck"@,
            IntentType::Unknown => "unknown"@,
        }
    }

    /// The intent's name.
    pub fn as_str(&self) -> (s: &'static str)
        ensures
            s@ == self.spec_as_str(),
    {
        match self {
            IntentType::Debugging => "debugging",
            IntentType::Learning => "learning",
            IntentType::Creating => "creating",
            IntentType::Researching => "researching",
            IntentType::Stuck => "stuck",
            IntentType::Unknown => "unknown",
        }
    }

    /// The intent named by an already lower-cased word.
    pub fn from_lowercase(w: &str) -> (t: IntentType)
        ensures
            t == spec_intent_of_word(w@),
    {
        if str_eq(w, "debugging") {
            IntentType::Debugging
        } else if str_eq(w, "learning") {
            IntentType::Learning
        } else if str_eq(w, "creating") {
            IntentType::Creating
        } else if str_eq(w, "researching") {
            IntentType::Researching
        } else if str_eq(w, "stuck") {
            IntentType::Stuck
        } else {
            IntentType::Unknown
        }
    }

    /// The intent named by a word, in any case.
    pub fn from_str(s: &str) -> (t: IntentType)
        ensures
            t == spec_intent_of_word(spec_to_lowercase(s@)),
            spec_is_ascii(s@) ==> t == spec_intent_of_word(spec_ascii_lowercase(s@)),
    {
        let lower = to_lowercase(s);
        Self::from_lowercase(lower.as_str())
    }
}

/// Language model providers of the intent detector.
#[derive(Debug, Clone, Copy, PartialEq, Eq, Structural)]
pub enum LLMProvider {
    Ollama,
    OpenAI,
    Anthropic,
}

/// The provider a lower-cased word names (anything else is Ollama).
pub open spec fn spec_provider_of_word(w: Seq<char>) -> LLMProvider {
    if w == "openai"@ {
        LLMProvider::OpenAI
    } else if w == "anthropic"@ {
        LLMProvider::Anthropic
    } else {
        LLMProvider::Ollama
    }
}

impl LLMProvider {
    pub open spec fn spec_as_str(self) -> Seq<char> {
        match self {
            LLMProvider::Ollama => "ollama"@,
            LLMProvider::OpenAI => "openai"@,
            LLMProvider::Anthropic => "anthropic"@,
        }
    }

    pub open spec fn spec_base_url(self) -> Seq<char> {
        match self {
            LLMProvider::Ollama => "http://localhost:11434"@,
            LLMProvider::OpenAI => "https://api.openai.com/v1"@,
            LLMProvider::Anthropic => "https://api.anthropic.com/v1"@,
        }
    }

    /// The provider's name.
    pub fn as_str(&self) -> (s: &'static str)
        ensures
            s@ == self.spec_as_str(),
    {
        match self {
            LLMProvider::Ollama => "ollama",
            LLMProvider::OpenAI => "openai",
            LLMProvider::Anthropic => "anthropic",
        }
    }

    /// The provider named by a word, in any case; Ollama by default.
    pub fn from_str(s: &str) -> (p: LLMProvider)
        ensures
            p == spec_provider_of_word(spec_to_lowercase(s@)),
            spec_is_ascii(s@) ==> p == spec_provider_of_word(spec_ascii_lowercase(s@)),
    {
        let lower = to_lowercase(s);
        if str_eq(lower.as_str(), "openai") {
            LLMProvider::OpenAI
        } else if str_eq(lower.as_str(), "anthropic") {
            LLMProvider::Anthropic
        } else {
            LLMProvider::Ollama
        }
    }

    /// The base URL of the provider's API.
    pub fn base_url(&self) -> (s: &'static str)
        ensures
            s@ == self.spec_base_url(),
    {
        match self {
            LLMProvider::Ollama => "http://localhost:11434",
            LLMProvider::OpenAI => "https://api.openai.com/v1",
            LLMProvider::Anthropic => "https://api.anthropic.com/v1",
        }
    }
}

/// Idle time above which a user without other signals counts as stuck (ms).
pub const STUCK_IDLE_MS: u64 = 60_000;

/// The fallback intent from the context: error words in the window title
/// mean debugging; a browser on StackOverflow or docs means learning; a code
/// editor means creating; more than a minute idle means stuck.
pub open spec fn spec_heuristic_intent(app_name: Seq<char>, window_title: Seq<char>, idle_ms: u64) -> IntentType {
    let a = spec_to_lowercase(app_name);
    let t = spec_to_lowercase(window_title);
    if spec_contains(t, "error"@) || spec_contains(t, "exception"@) || spec_contains(t, "debug"@) {
        IntentType::Debugging
    } else if spec_contains(a, "browser"@) && (spec_contains(t, "stackoverflow"@) || spec_contains(t, "docs"@)) {
        IntentType::Learning
    } else if spec_contains(a, "code"@) || spec_contains(a, "editor"@) {
        IntentType::Creating
    } else if idle_ms > STUCK_IDLE_MS {
        IntentType::Stuck
    } else {
        IntentType::Unknown
    }
}

/// Intent guessed from the context when the language model cannot answer.
pub fn heuristic_intent_detection(app_name: &str, window_title: &str, idle_ms: u64) -> (t: IntentType)
    ensures
        t == spec_heuristic_intent(app_name@, window_title@, idle_ms),
{
    let a = to_lowercase(app_name);
    let t = to_lowercase(window_title);
    let a = a.as_str();
    let t = t.as_str();
    if contains_str(t, "error") || contains_str(t, "exception") || contains_str(t, "debug") {
        IntentType::Debugging
    } else if contains_str(a, "browser") && (contains_str(t, "stackoverflow") || contains_str(t, "docs")) {
        IntentType::Learning
    } else if contains_str(a, "code") || contains_str(a, "editor") {
        IntentType::Creating
    } else if idle_ms > STUCK_IDLE_MS {
        IntentType::Stuck
    } else {
        IntentType::Unknown
    }
}

/// The domain hints of a context, in order: development, web, terminal
/// (from the application), debugging, research (from the window title),
/// coding, error_analysis (from the clipboard).
pub open spec fn spec_domain_hints(app_name: Seq<char>, window_title: Seq<char>, clipboard: Option<Seq<char>>) -> Seq<Seq<char>> {
    let a = spec_to_lowercase(app_name);
    let t = spec_to_lowercase(window_title);
    let h0: Seq<Seq<char>> = Seq::empty();
    let h1 = if spec_contains(a, "code"@) || spec_contains(a, "studio"@) || spec_contains(a, "editor"@) {
        h0.push("development"@)
    } else {
        h0
    };
    let h2 = if spec_contains(a, "browser"@) || spec_contains(a, "chrome"@) || spec_contains(a, "safari"@) {
        h1.push("web"@)
    } else {
        h1
    };
    let h3 = if spec_contains(a, "terminal"@) || spec_contains(a, "console"@) {
        h2.push("terminal"@)
    } else {
        h2
    };
    let h4 = if spec_contains(t, "error"@) || spec_contains(t, "exception"@) || spec_contains(t, "debug"@) {
        h3.push("debugging"@)
    } else {
        h3
    };
    let h5 = if spec_contains(t, "stackoverflow"@) || spec_contains(t, "github"@) || spec_contains(t, "docs"@) {
        h4.push("research"@)
    } else {
        h4
    };
    match clipboard {
        None => h5,
        Some(c) => {
            let cl = spec_to_lowercase(c);
            let h6 = if spec_contains(cl, "def "@) || spec_contains(cl, "class "@) || spec_contains(cl, "import "@) {
                h5.push("coding"@)
            } else {
                h5
            };
            if spec_contains(cl, "error"@) || spec_contains(cl, "traceback"@) {
                h6.push("error_analysis"@)
            } else {
                h6
            }
        },
    }
}

/// Domain hints extracted from the application, window title and clipboard.
pub fn extract_domain_hints(app_name: &str, window_title: &str, clipboard: Option<&str>) -> (hints: Vec<String>)
    ensures
        spec_strings(hints@) == spec_domain_hints(app_name@, window_title@, match clipboard {
            Some(c) => Some(c@),
            None => None,
        }),
{
    let mut hints: Vec<String> = Vec::new();
    let a = to_lowercase(app_name);
    let t = to_lowercase(window_title);
    let a = a.as_str();
    let t = t.as_str();
    if contains_str(a, "code") || contains_str(a, "studio") || contains_str(a, "editor") {
        hints.push(String::from_str("development"));
    }
    if contains_str(a, "browser") || contains_str(a, "chrome") || contains_str(a, "safari") {
        hints.push(String::from_str("web"));
    }
    if contains_str(a, "terminal") || contains_str(a, "console") {
        hints.push(String::from_str("terminal"));
    }
    if contains_str(t, "error") || contains_str(t, "exception") || contains_str(t, "debug") {
        hints.push(String::from_str("debugging"));
    }
    if contains_str(t, "stackoverflow") || contains_str(t, "github") || contains_str(t, "docs") {
        hints.push(String::from_str("research"));
    }
    if let Some(c) = clipboard {
        let cl = to_lowercase(c);
        let cl = cl.as_str();
        if contains_str(cl, "def ") || contains_str(cl, "class ") || contains_str(cl, "import ") {
            hints.push(String::from_str("coding"));
        }
        if contains_str(cl, "error") || contains_str(cl, "traceback") {
            hints.push(String::from_str("error_analysis"));
        }
    }
    assert(spec_strings(hints@) =~= spec_domain_hints(app_name@, window_title@, match clipboard {
        Some(c) => Some(c@),
        None => None,
    }));
    hints
}

/// Words ignored by the intent detector's keyword extraction.
pub open spec fn spec_intent_stop_words() -> Seq<Seq<char>> {
    seq![
        "the"@, "and"@, "or"@, "but"@, "in"@, "on"@, "at"@, "to"@, "for"@, "of"@, "with"@, "by"@, "a"@,
        "an"@, "is"@, "are"@, "was"@, "were"@, "be"@, "been"@, "have"@, "has"@, "had"@, "this"@, "that"@,
        "these"@, "those"@, "will"@, "would"@, "could"@, "should"@
    ]
}

/// The intent detector's stop words.
pub fn intent_stop_words() -> (a: [&'static str; 31])
    ensures
        spec_strs(a@) == spec_intent_stop_words(),
{
    let a: [&'static str; 31] = [
        "the", "and", "or", "but", "in", "on", "at", "to", "for", "of", "with", "by", "a",
        "an", "is", "are", "was", "were", "be", "been", "have", "has", "had", "this", "that",
        "these", "those", "will", "would", "could", "should",
    ];
    assert(spec_strs(a@) =~= spec_intent_stop_words());
    a
}

/// Whether a word is one of the intent detector's stop words.
pub fn is_stop_word(word: &str) -> (b: bool)
    ensures
        b == spec_intent_stop_words().contains(word@),
{
    let a = intent_stop_words();
    word_in_list(word, &a)
}

/// Maximum number of clipboard keywords.
pub const MAX_CLIPBOARD_KEYWORDS: usize = 5;

/// Keywords of the clipboard: its words of more than 3 bytes, lower-cased,
/// stop words removed, at most five.
pub fn extract_clipboard_keywords(clipboard: Option<&str>) -> (k: Vec<String>)
    ensures
        match clipboard {
            None => k@.len() == 0,
            Some(c) => spec_strings(k@) == spec_take_at_most(
                spec_keyword_candidates(spec_split_whitespace(c@), 3, spec_intent_stop_words()),
                MAX_CLIPBOARD_KEYWORDS as nat,
            ),
        },
{
    match clipboard {
        None => Vec::new(),
        Some(c) => {
            let words = split_whitespace(c);
            let stop = intent_stop_words();
            select_keywords(&words, 3, &stop, MAX_CLIPBOARD_KEYWORDS)
        },
    }
}

/// The key under which an intent is cached: application, window title and
/// the hash of the clipboard (in hexadecimal, `none` without clipboard),
/// separated by `|`.
pub open spec fn spec_intent_cache_key(app_name: Seq<char>, window_title: Seq<char>, clipboard: Option<Seq<char>>) -> Seq<char> {
    let clip = match clipboard {
        Some(c) => spec_hex(spec_std_hash(c) as nat),
        None => "none"@,
    };
    app_name + "|"@ + window_title + "|"@ + clip
}

/// The cache key of a context (see `spec_intent_cache_key`).
pub fn generate_cache_key(app_name: &str, window_title: &str, clipboard: Option<&str>) -> (k: String)
    ensures
        k@ == spec_intent_cache_key(app_name@, window_title@, match clipboard {
            Some(c) => Some(c@),
            None => None,
        }),
{
    let clip = match clipboard {
        Some(c) => hex_string(std_hash(c)),
        None => String::from_str("none"),
    };
    let head = join3(app_name, "|", window_title);
    join3(head.as_str(), "|", clip.as_str())
}

/// A line of a model's answer that is kept: not blank and not a heading.
pub open spec fn spec_kept_answer_line(line: Seq<char>) -> bool {
    let t = spec_trim(line);
    t.len() > 0 && t[0] != '#'
}

/// The kept lines of a model's answer, in order.
pub open spec fn spec_kept_answer_lines(lines: Seq<Seq<char>>) -> Seq<Seq<char>>
    decreases lines.len(),
{
    if lines.len() == 0 {
        Seq::empty()
    } else {
        let prev = spec_kept_answer_lines(lines.drop_last());
        if spec_kept_answer_line(lines.last()) { prev.push(lines.last()) } else { prev }
    }
}

/// A model's answer with blank lines and headings removed and the other
/// lines joined with spaces.
pub open spec fn spec_cleaned_answer(response: Seq<char>) -> Seq<char> {
    spec_join(spec_kept_answer_lines(spec_lines(spec_trim(response))), " "@)
}

/// Index of the first occurrence of a character.
pub open spec fn spec_first_index(s: Seq<char>, c: char) -> Option<int>
    decreases s.len(),
{
    if s.len() == 0 {
        None
    } else if s[0] == c {
        Some(0)
    } else {
        match spec_first_index(s.drop_first(), c) {
            Some(i) => Some(i + 1),
            None => None,
        }
    }
}

/// Index of the last occurrence of a character.
pub open spec fn spec_last_index(s: Seq<char>, c: char) -> Option<int>
    decreases s.len(),
{
    if s.len() == 0 {
        None
    } else if s.last() == c {
        Some(s.len() - 1)
    } else {
        spec_last_index(s.drop_last(), c)
    }
}

/// The JSON object of an answer: from its first `{` to its last `}` when
/// it has both, otherwise the whole cleaned answer.
pub open spec fn spec_json_candidate(cleaned: Seq<char>) -> Seq<char> {
    match (spec_first_index(cleaned, '{'), spec_last_index(cleaned, '}')) {
        (Some(a), Some(b)) => cleaned.subrange(a, b + 1),
        _ => cleaned,
    }
}

/// The answer has a `}` before its first `{` and no later one: slicing from
/// one to the other is impossible.
pub open spec fn spec_braces_reversed(cleaned: Seq<char>) -> bool {
    match (spec_first_index(cleaned, '{'), spec_last_index(cleaned, '}')) {
        (Some(a), Some(b)) => b < a,
        _ => false,
    }
}

proof fn lemma_first_index_range(s: Seq<char>, c: char)
    ensures
        spec_first_index(s, c) matches Some(i) ==> 0 <= i < s.len() && s[i] == c,
    decreases s.len(),
{
    if s.len() > 0 && s[0] != c {
        lemma_first_index_range(s.drop_first(), c);
    }
}

proof fn lemma_last_index_range(s: Seq<char>, c: char)
    ensures
        spec_last_index(s, c) matches Some(i) ==> 0 <= i < s.len() && s[i] == c,
    decreases s.len(),
{
    if s.len() > 0 && s.last() != c {
        lemma_last_index_range(s.drop_last(), c);
    }
}

/// Cleans a model's answer (see `spec_cleaned_answer`).
pub fn clean_answer(response: &str) -> (r: String)
    ensures
        r@ == spec_cleaned_answer(response@),
{
    let lines = lines_of(trim_str(response));
    let ghost ls = spec_lines(spec_trim(response@));
    let mut kept: Vec<String> = Vec::new();
    let mut i: usize = 0;
    while i < lines.len()
        invariant
            i <= lines@.len(),
            spec_strings(lines@) == ls,
            spec_strings(kept@) == spec_kept_answer_lines(ls.take(i as int)),
        decreases lines@.len() - i,
    {
        let t = trim_str(lines[i].as_str());
        let keep = t.unicode_len() > 0 && t.get_char(0) != '#';
        proof {
            assert(ls.take(i + 1).drop_last() =~= ls.take(i as int));
            assert(ls.take(i + 1).last() == lines@[i as int]@);
        }
        if keep {
            let ghost before = kept@;
            kept.push(lines[i].clone());
            assert(spec_strings(kept@) =~= spec_strings(before).push(lines@[i as int]@));
        }
        i = i + 1;
    }
    assert(ls.take(lines@.len() as int) =~= ls);
    join_strings(kept.as_slice(), " ")
}

/// The JSON object of a cleaned answer (see `spec_json_candidate`); the
/// braces must not be reversed.
pub fn json_candidate(cleaned: &str) -> (r: String)
    requires
        !spec_braces_reversed(cleaned@),
    ensures
        r@ == spec_json_candidate(cleaned@),
{
    let v = chars_of(cleaned);
    let n = v.len();
    let mut a: usize = 0;
    assert(cleaned@.skip(0) =~= cleaned@);
    assert(cleaned@.take(n as int) =~= cleaned@);
    while a < n && v[a] != '{'
        invariant
            v@ == cleaned@,
            n == cleaned@.len(),
            a <= n,
            spec_first_index(cleaned@, '{') == match spec_first_index(cleaned@.skip(a as int), '{') {
                Some(i) => Some(i + a),
                None => None,
            },
        decreases n - a,
    {
        assert(cleaned@.skip(a as int).drop_first() =~= cleaned@.skip(a + 1));
        a = a + 1;
    }
    let mut b: usize = n;
    while b > 0 && v[b - 1] != '}'
        invariant
            v@ == cleaned@,
            n == cleaned@.len(),
            b <= n,
            spec_last_index(cleaned@, '}') == spec_last_index(cleaned@.take(b as int), '}'),
        decreases b,
    {
        assert(cleaned@.take(b as int).drop_last() =~= cleaned@.take(b - 1));
        b = b - 1;
    }
    proof {
        if a < n {
            assert(cleaned@.skip(a as int)[0] == '{');
        } else {
            assert(cleaned@.skip(a as int).len() == 0);
        }
        if b > 0 {
            assert(cleaned@.take(b as int).last() == '}');
        } else {
            assert(cleaned@.take(0).len() == 0);
        }
        assert(cleaned@.skip(0) =~= cleaned@);
        assert(cleaned@.take(n as int) =~= cleaned@);
    }
    if a < n && b > 0 {
        String::from_str(cleaned.substring_char(a, b))
    } else {
        String::from_str(cleaned)
    }
}

/// Counts of the language model client.
#[derive(Debug, Clone, Copy, PartialEq, Eq, Structural)]
pub struct LLMClientStats {
    pub total_requests: u64,
    pub successful_requests: u64,
    pub failed_requests: u64,
    pub total_response_time_ms: u64,
    pub provider: LLMProvider,
}

/// One more, stopping at the largest value.
pub open spec fn spec_inc_count(x: u64) -> u64 {
    if x < u64::MAX { (x + 1) as u64 } else { x }
}

fn inc_count(x: u64) -> (y: u64)
    ensures
        y == spec_inc_count(x),
{
    if x < u64::MAX { x + 1 } else { x }
}

/// No request yet, for a provider.
pub open spec fn spec_fresh_stats(provider: LLMProvider) -> LLMClientStats {
    LLMClientStats { total_requests: 0, successful_requests: 0, failed_requests: 0, total_response_time_ms: 0, provider }
}

/// The settings and counts of the language model client; the requests
/// themselves are sent by the caller.
pub struct LLMClient {
    pub provider: LLMProvider,
    pub api_key: Option<String>,
    pub base_url: String,
    pub timeout_secs: u64,
    pub stats: LLMClientStats,
}

impl LLMClient {
    /// A client of a provider, at its base URL, with a 30 s timeout.
    pub fn new(provider: LLMProvider, api_key: Option<String>) -> (c: Self)
        ensures
            c.provider == provider,
            c.api_key == api_key,
            c.base_url@ == provider.spec_base_url(),
            c.timeout_secs == 30,
            c.stats == spec_fresh_stats(provider),
    {
        LLMClient {
            provider,
            api_key,
            base_url: String::from_str(provider.base_url()),
            timeout_secs: 30,
            stats: LLMClientStats { total_requests: 0, successful_requests: 0, failed_requests: 0, total_response_time_ms: 0, provider },
        }
    }

    /// Counts a generation that took `duration_ms` and succeeded or not.
    pub fn record_generation(&mut self, succeeded: bool, duration_ms: u64)
        ensures
            final(self).provider == old(self).provider,
            final(self).api_key == old(self).api_key,
            final(self).base_url == old(self).base_url,
            final(self).timeout_secs == old(self).timeout_secs,
            final(self).stats == (LLMClientStats {
                total_requests: spec_inc_count(old(self).stats.total_requests),
                successful_requests: if succeeded { spec_inc_count(old(self).stats.successful_requests) } else { old(self).stats.successful_requests },
                failed_requests: if succeeded { old(self).stats.failed_requests } else { spec_inc_count(old(self).stats.failed_requests) },
                total_response_time_ms: if old(self).stats.total_response_time_ms + duration_ms <= u64::MAX {
                    (old(self).stats.total_response_time_ms + duration_ms) as u64
                } else {
                    u64::MAX
                },
                provider: old(self).stats.provider,
            }),
    {
        self.stats.total_requests = inc_count(self.stats.total_requests);
        self.stats.total_response_time_ms = self.stats.total_response_time_ms.saturating_add(duration_ms);
        if succeeded {
            self.stats.successful_requests = inc_count(self.stats.successful_requests);
        } else {
            self.stats.failed_requests = inc_count(self.stats.failed_requests);
        }
    }

    /// Moves to another provider, with its key and base URL; the counts stay.
    pub fn switch_provider(&mut self, new_provider: LLMProvider, api_key: Option<String>)
        ensures
            final(self).provider == new_provider,
            final(self).api_key == api_key,
            final(self).base_url@ == new_provider.spec_base_url(),
            final(self).timeout_secs == old(self).timeout_secs,
            final(self).stats == old(self).stats,
    {
        self.provider = new_provider;
        self.api_key = api_key;
        self.base_url = String::from_str(new_provider.base_url());
    }

    /// A provider can only be reached with a key, except the local one.
    pub fn can_check_availability(&self) -> (b: bool)
        ensures
            b == (self.provider == LLMProvider::Ollama || self.api_key is Some),
    {
        match self.provider {
            LLMProvider::Ollama => true,
            _ => self.api_key.is_some(),
        }
    }

    /// The counts.
    pub fn get_stats(&self) -> (s: LLMClientStats)
        ensures
            s == self.stats,
    {
        self.stats
    }

    /// Starts the counts again, for the current provider.
    pub fn reset_stats(&mut self)
        ensures
            final(self).stats == spec_fresh_stats(old(self).provider),
            final(self).provider == old(self).provider,
            final(self).api_key == old(self).api_key,
            final(self).base_url == old(self).base_url,
            final(self).timeout_secs == old(self).timeout_secs,
    {
        self.stats = LLMClientStats {
            total_requests: 0,
            successful_requests: 0,
            failed_requests: 0,
            total_response_time_ms: 0,
            provider: self.provider,
        };
    }
}

/// Every intent's name reads back as that intent.
pub proof fn lemma_intent_name_round_trip(t: IntentType)
    ensures
        spec_is_ascii(t.spec_as_str()),
        spec_intent_of_word(spec_ascii_lowercase(t.spec_as_str())) == t,
{
    reveal_strlit("debugging");
    reveal_strlit("learning");
    reveal_strlit("creating");
    reveal_strlit("researching");
    reveal_strlit("stuck");
    reveal_strlit("unknown");
    lemma_lowercase_word(t.spec_as_str());
    let w = t.spec_as_str();
    assert(w.len() != "debugging"@.len() || w == "debugging"@);
    assert(w.len() != "researching"@.len() || w == "researching"@);
    assert(w.len() != "stuck"@.len() || w == "stuck"@);
    assert(w == "learning"@ || w == "creating"@ || w.len() != 8);
    assert("learning"@[0] != "creating"@[0]);
}

/// Intent names are matched ignoring case: ASCII words equal up to case
/// name the same intent.
pub proof fn lemma_intent_ignores_case(a: Seq<char>, b: Seq<char>)
    requires
        spec_same_ignoring_case(a, b),
    ensures
        spec_intent_of_word(spec_ascii_lowercase(a)) == spec_intent_of_word(spec_ascii_lowercase(b)),
{
    lemma_same_lowercase(a, b);
}

/// Every provider's name reads back as that provider.
pub proof fn lemma_provider_name_round_trip(p: LLMProvider)
    ensures
        spec_is_ascii(p.spec_as_str()),
        spec_provider_of_word(spec_ascii_lowercase(p.spec_as_str())) == p,
{
    reveal_strlit("ollama");
    reveal_strlit("openai");
    reveal_strlit("anthropic");
    lemma_lowercase_word(p.spec_as_str());
    assert("ollama"@.len() != "openai"@.len() || "ollama"@[1] != "openai"@[1]);
    assert("ollama"@.len() != "anthropic"@.len());
    assert("openai"@.len() != "anthropic"@.len());
}

/// Provider names are matched ignoring case: ASCII words equal up to case
/// name the same provider.
pub proof fn lemma_provider_ignores_case(a: Seq<char>, b: Seq<char>)
    requires
        spec_same_ignoring_case(a, b),
    ensures
        spec_provider_of_word(spec_ascii_lowercase(a)) == spec_provider_of_word(spec_ascii_lowercase(b)),
{
    lemma_same_lowercase(a, b);
}

/// A window title that mentions an error, an exception or debugging (in any
/// case) makes the heuristics guess debugging, whatever the application and
/// the idle time.
pub proof fn lemma_error_titles_mean_debugging(app_name: Seq<char>, window_title: Seq<char>, idle_ms: u64)
    requires
        spec_contains(spec_to_lowercase(window_title), "error"@)
            || spec_contains(spec_to_lowercase(window_title), "exception"@)
            || spec_contains(spec_to_lowercase(window_title), "debug"@),
    ensures
        spec_heuristic_intent(app_name, window_title, idle_ms) == IntentType::Debugging,
{
}

/// Without an error word in the title, the heuristics guess learning for a
/// browser on Stack Overflow or documentation, creating in a code editor,
/// and being stuck after more than a minute idle elsewhere; they guess
/// nothing for a short idle in any other application.
pub proof fn lemma_heuristic_without_errors(app_name: Seq<char>, window_title: Seq<char>, idle_ms: u64)
    requires
        !spec_contains(spec_to_lowercase(window_title), "error"@),
        !spec_contains(spec_to_lowercase(window_title), "exception"@),
        !spec_contains(spec_to_lowercase(window_title), "debug"@),
    ensures
        spec_contains(spec_to_lowercase(app_name), "browser"@)
            && (spec_contains(spec_to_lowercase(window_title), "stackoverflow"@)
                || spec_contains(spec_to_lowercase(window_title), "docs"@))
            ==> spec_heuristic_intent(app_name, window_title, idle_ms) == IntentType::Learning,
        !spec_contains(spec_to_lowercase(app_name), "browser"@)
            && (spec_contains(spec_to_lowercase(app_name), "code"@) || spec_contains(spec_to_lowercase(app_name), "editor"@))
            ==> spec_heuristic_intent(app_name, window_title, idle_ms) == IntentType::Creating,
        !spec_contains(spec_to_lowercase(app_name), "browser"@)
            && !spec_contains(spec_to_lowercase(app_name), "code"@)
            && !spec_contains(spec_to_lowercase(app_name), "editor"@)
            ==> spec_heuristic_intent(app_name, window_title, idle_ms)
                == if idle_ms > 60_000 { IntentType::Stuck } else { IntentType::Unknown },
{
}

} // verus!
