//! Chat with a language model: messages, providers, the retry-and-fallback
//! protocol of a chat request, and slash commands.
use vstd::prelude::*;
use crate::text::join2;

verus! {

/// A chat message.
#[derive(Debug, Clone)]
pub struct ChatMessage {
    pub role: String,
    pub content: String,
}

/// The answer to a chat request.
#[derive(Debug, Clone)]
pub struct ChatResponse {
    pub content: String,
    pub provider: String,
    pub used_fallback: bool,
    pub ttfr_ms: u64,
}

/// Where chat requests go.
#[derive(Debug, Clone)]
pub enum LLMProvider {
    OpenAI { api_key: String, base_url: String },
    Ollama { base_url: String },
}

/// Base URL of a local Ollama server.
pub open spec fn spec_ollama_url() -> Seq<char> {
    "http://localhost:11434"@
}

/// Base URL of the OpenAI API.
pub open spec fn spec_openai_url() -> Seq<char> {
    "https://api.openai.com/v1"@
}

impl LLMProvider {
    pub open spec fn spec_name(&self) -> Seq<char> {
        match self {
            LLMProvider::OpenAI { .. } => "openai"@,
            LLMProvider::Ollama { .. } => "ollama"@,
        }
    }

    /// The provider's name: "openai" or "ollama".
    pub fn provider_name(&self) -> (s: String)
        ensures
            s@ == self.spec_name(),
    {
        match self {
            LLMProvider::OpenAI { .. } => String::from_str("openai"),
            LLMProvider::Ollama { .. } => String::from_str("ollama"),
        }
    }

    /// The primary provider: OpenAI when an API key is configured
    /// (`OPENAI_API_KEY`), the local Ollama server otherwise.
    pub fn detect_primary_provider(openai_api_key: Option<String>) -> (p: LLMProvider)
        ensures
            match openai_api_key {
                Some(k) => p matches LLMProvider::OpenAI { api_key, base_url } && api_key@ == k@ && base_url@ == spec_openai_url(),
                None => p matches LLMProvider::Ollama { base_url } && base_url@ == spec_ollama_url(),
            },
    {
        match openai_api_key {
            Some(api_key) => LLMProvider::OpenAI { api_key, base_url: String::from_str("https://api.openai.com/v1") },
            None => LLMProvider::Ollama { base_url: String::from_str("http://localhost:11434") },
        }
    }

    /// The fallback provider: the local Ollama server.
    pub fn fallback_provider() -> (p: LLMProvider)
        ensures
            p matches LLMProvider::Ollama { base_url } && base_url@ == spec_ollama_url(),
    {
        LLMProvider::Ollama { base_url: String::from_str("http://localhost:11434") }
    }
}

/// Number of attempts on the primary provider.
pub const PRIMARY_ATTEMPTS: u32 = 3;

/// Per-attempt timeout, in seconds.
pub const ATTEMPT_TIMEOUT_SECS: u64 = 12;

/// Where a chat request stands.
#[derive(Debug, Clone, Copy, PartialEq, Eq, Structural)]
pub enum ChatStage {
    /// Waiting for the answer of primary attempt `attempt` (0, 1 or 2).
    Primary { attempt: u32 },
    /// Waiting before primary attempt `next` (or the fallback once all
    /// primary attempts are spent).
    Backoff { next: u32 },
    /// Waiting for the fallback provider's answer.
    Fallback,
    /// The request is over.
    Done,
}

/// What the caller observed.
#[derive(Debug, Clone)]
pub enum ChatEvent {
    /// The provider answered.
    Reply(String),
    /// The provider reported an error.
    Failed(String),
    /// No answer within the timeout.
    TimedOut,
    /// The back-off wait is over.
    Waited,
}

/// What the caller must do next.
#[derive(Debug, Clone)]
pub enum ChatAction {
    /// Send the request to the primary provider (attempt number given).
    SendPrimary { attempt: u32 },
    /// Wait this many seconds, then report `Waited`.
    Wait { secs: u64 },
    /// Send the request to the fallback provider.
    SendFallback,
    /// The request succeeded with this content.
    Succeed { content: String, used_fallback: bool },
    /// The request failed with this message.
    Fail { message: String },
    /// Nothing: the event does not belong to the current stage.
    Ignore,
}

/// Back-off before the next attempt after failed attempt `attempt`: 2, 4, 8 s.
pub open spec fn spec_backoff_secs(attempt: u32) -> u64 {
    if attempt == 0 { 2 } else if attempt == 1 { 4 } else { 8 }
}

/// The chat request protocol: three attempts on the primary provider with a
/// back-off after each error (a timeout moves on at once), then one attempt
/// on the fallback provider.
pub open spec fn spec_chat_next_stage(stage: ChatStage, event: ChatEvent) -> ChatStage {
    match (stage, event) {
        (ChatStage::Primary { attempt }, ChatEvent::Reply(_)) => ChatStage::Done,
        (ChatStage::Primary { attempt }, ChatEvent::Failed(_)) => ChatStage::Backoff { next: (attempt + 1) as u32 },
        (ChatStage::Primary { attempt }, ChatEvent::TimedOut) =>
            if attempt + 1 < PRIMARY_ATTEMPTS { ChatStage::Primary { attempt: (attempt + 1) as u32 } } else { ChatStage::Fallback },
        (ChatStage::Backoff { next }, ChatEvent::Waited) =>
            if next < PRIMARY_ATTEMPTS { ChatStage::Primary { attempt: next } } else { ChatStage::Fallback },
        (ChatStage::Fallback, ChatEvent::Reply(_)) => ChatStage::Done,
        (ChatStage::Fallback, ChatEvent::Failed(_)) => ChatStage::Done,
        (ChatStage::Fallback, ChatEvent::TimedOut) => ChatStage::Done,
        _ => stage,
    }
}

/// A stage is reachable from the start of a request.
pub open spec fn spec_stage_valid(stage: ChatStage) -> bool {
    match stage {
        ChatStage::Primary { attempt } => attempt < PRIMARY_ATTEMPTS,
        ChatStage::Backoff { next } => 1 <= next <= PRIMARY_ATTEMPTS,
        _ => true,
    }
}

/// Upper bound on the number of events before the request is over.
pub open spec fn spec_steps_left(stage: ChatStage) -> nat {
    match stage {
        ChatStage::Primary { attempt } => (2 * (PRIMARY_ATTEMPTS - attempt) + 1) as nat,
        ChatStage::Backoff { next } => (2 * (PRIMARY_ATTEMPTS - next) + 2) as nat,
        ChatStage::Fallback => 1,
        ChatStage::Done => 0,
    }
}

/// The progress of one chat request.
pub struct ChatRetry {
    pub stage: ChatStage,
}

impl ChatRetry {
    /// Starts a request: the first primary attempt.
    pub fn start() -> (r: (ChatRetry, ChatAction))
        ensures
            r.0.stage == (ChatStage::Primary { attempt: 0 }),
            r.1 matches ChatAction::SendPrimary { attempt } && attempt == 0,
    {
        (ChatRetry { stage: ChatStage::Primary { attempt: 0 } }, ChatAction::SendPrimary { attempt: 0 })
    }

    /// Advances the request on an event and says what to do next. A reply
    /// succeeds (flagged as fallback when it came from the fallback
    /// provider); an error of the fallback fails with "LLM unavailable (both
    /// providers failed): ..." and its timeout with "LLM timeout (both
    /// providers)".
    pub fn on_event(&mut self, event: ChatEvent) -> (action: ChatAction)
        requires
            spec_stage_valid(old(self).stage),
        ensures
            final(self).stage == spec_chat_next_stage(old(self).stage, event),
            spec_stage_valid(final(self).stage),
            match (old(self).stage, event) {
                (ChatStage::Primary { attempt }, ChatEvent::Reply(c)) =>
                    action matches ChatAction::Succeed { content, used_fallback } && content@ == c@ && !used_fallback,
                (ChatStage::Primary { attempt }, ChatEvent::Failed(_)) =>
                    action matches ChatAction::Wait { secs } && secs == spec_backoff_secs(attempt),
                (ChatStage::Primary { attempt }, ChatEvent::TimedOut) =>
                    if attempt + 1 < PRIMARY_ATTEMPTS {
                        action matches ChatAction::SendPrimary { attempt: a } && a == attempt + 1
                    } else {
                        action is SendFallback
                    },
                (ChatStage::Backoff { next }, ChatEvent::Waited) =>
                    if next < PRIMARY_ATTEMPTS {
                        action matches ChatAction::SendPrimary { attempt: a } && a == next
                    } else {
                        action is SendFallback
                    },
                (ChatStage::Fallback, ChatEvent::Reply(c)) =>
                    action matches ChatAction::Succeed { content, used_fallback } && content@ == c@ && used_fallback,
                (ChatStage::Fallback, ChatEvent::Failed(e)) =>
                    action matches ChatAction::Fail { message } && message@ == "LLM unavailable (both providers failed): "@ + e@,
                (ChatStage::Fallback, ChatEvent::TimedOut) =>
                    action matches ChatAction::Fail { message } && message@ == "LLM timeout (both providers)"@,
                _ => action is Ignore,
            },
    {
        match self.stage {
            ChatStage::Primary { attempt } => match event {
                ChatEvent::Reply(c) => {
                    self.stage = ChatStage::Done;
                    ChatAction::Succeed { content: c, used_fallback: false }
                },
                ChatEvent::Failed(_) => {
                    self.stage = ChatStage::Backoff { next: attempt + 1 };
                    let secs: u64 = if attempt == 0 { 2 } else if attempt == 1 { 4 } else { 8 };
                    ChatAction::Wait { secs }
                },
                ChatEvent::TimedOut => {
                    if attempt + 1 < PRIMARY_ATTEMPTS {
                        self.stage = ChatStage::Primary { attempt: attempt + 1 };
                        ChatAction::SendPrimary { attempt: attempt + 1 }
                    } else {
                        self.stage = ChatStage::Fallback;
                        ChatAction::SendFallback
                    }
                },
                ChatEvent::Waited => ChatAction::Ignore,
            },
            ChatStage::Backoff { next } => match event {
                ChatEvent::Waited => {
                    if next < PRIMARY_ATTEMPTS {
                        self.stage = ChatStage::Primary { attempt: next };
                        ChatAction::SendPrimary { attempt: next }
                    } else {
                        self.stage = ChatStage::Fallback;
                        ChatAction::SendFallback
                    }
                },
                _ => ChatAction::Ignore,
            },
            ChatStage::Fallback => match event {
                ChatEvent::Reply(c) => {
                    self.stage = ChatStage::Done;
                    ChatAction::Succeed { content: c, used_fallback: true }
                },
                ChatEvent::Failed(e) => {
                    self.stage = ChatStage::Done;
                    ChatAction::Fail { message: join2("LLM unavailable (both providers failed): ", e.as_str()) }
                },
                ChatEvent::TimedOut => {
                    self.stage = ChatStage::Done;
                    ChatAction::Fail { message: String::from_str("LLM timeout (both providers)") }
                },
                ChatEvent::Waited => ChatAction::Ignore,
            },
            ChatStage::Done => ChatAction::Ignore,
        }
    }

    /// Whether the request is over.
    pub fn is_done(&self) -> (b: bool)
        ensures
            b == (self.stage == ChatStage::Done),
    {
        match self.stage {
            ChatStage::Done => true,
            _ => false,
        }
    }
}

/// Every event that the current stage expects brings the request closer to
/// its end: at most seven events after the start, it is over.
pub proof fn lemma_chat_terminates(stage: ChatStage, event: ChatEvent)
    requires
        spec_stage_valid(stage),
        spec_chat_next_stage(stage, event) != stage,
    ensures
        spec_steps_left(spec_chat_next_stage(stage, event)) < spec_steps_left(stage),
        spec_stage_valid(spec_chat_next_stage(stage, event)),
        spec_steps_left(ChatStage::Primary { attempt: 0 }) == 7,
{
}

/// A stage that is not over expects some event that moves it on.
pub proof fn lemma_chat_progress(stage: ChatStage)
    requires
        spec_stage_valid(stage),
        stage != ChatStage::Done,
    ensures
        exists|e: ChatEvent| spec_chat_next_stage(stage, e) != stage,
{
    match stage {
        ChatStage::Backoff { next } => {
            assert(spec_chat_next_stage(stage, ChatEvent::Waited) != stage);
        },
        _ => {
            assert(spec_chat_next_stage(stage, ChatEvent::TimedOut) != stage);
        },
    }
}

/// The reply shown to the user: the model's content, or an invitation to use
/// the local model with the error.
pub fn chat_reply(response: Result<ChatResponse, String>) -> (r: Result<String, String>)
    ensures
        match response {
            Ok(resp) => r matches Ok(c) && c@ == resp.content@,
            Err(e) => r matches Err(m) && m@ == "Cloud indisponible. Essayez Ollama (modèle local). Erreur: "@ + e@,
        },
{
    match response {
        Ok(resp) => Ok(resp.content),
        Err(e) => Err(join2("Cloud indisponible. Essayez Ollama (modèle local). Erreur: ", e.as_str())),
    }
}

/// A message from the user.
pub fn user_message(content: String) -> (m: ChatMessage)
    ensures
        m.role@ == "user"@,
        m.content@ == content@,
{
    ChatMessage { role: String::from_str("user"), content }
}

/// What a slash command asks for.
#[derive(Debug, Clone)]
pub enum SlashPlan {
    /// Answer directly.
    Reply { success: bool, message: String },
    /// Ask the language model this prompt; its answer is the reply.
    AskModel { prompt: String },
}

/// The help text of the slash commands.
pub open spec fn spec_slash_help() -> Seq<char> {
    "Commandes disponibles:\n/explain - Expliquer un concept\n/resume - Résumer du texte\n/debug - Analyser une erreur\n/improve - Suggérer des améliorations\n/translate - Traduire du texte"@
}

/// The plan for a slash command: `help` answers with the list of commands;
/// `explain`, `resume`, `debug`, `improve` and `translate` ask the model with
/// their prompt followed by the context; anything else is an unknown command.
pub open spec fn spec_slash_plan_kind(command: Seq<char>, context: Seq<char>) -> (bool, Seq<char>) {
    if command == "help"@ {
        (false, spec_slash_help())
    } else if command == "explain"@ {
        (true, "Explique clairement et simplement : "@ + context)
    } else if command == "resume"@ {
        (true, "Résume ce texte de manière concise : "@ + context)
    } else if command == "debug"@ {
        (true, "Analyse cette erreur et propose une solution : "@ + context)
    } else if command == "improve"@ {
        (true, "Suggère des améliorations pour : "@ + context)
    } else if command == "translate"@ {
        (true, "Traduis ce texte en français (ou en anglais s'il est déjà en français) : "@ + context)
    } else {
        (false, "Commande inconnue: /"@ + command)
    }
}

/// Plans the execution of a slash command.
pub fn plan_slash_command(command: &str, context: &str) -> (p: SlashPlan)
    ensures
        spec_slash_plan_kind(command@, context@).0 ==> (p matches SlashPlan::AskModel { prompt } && prompt@ == spec_slash_plan_kind(command@, context@).1),
        !spec_slash_plan_kind(command@, context@).0 ==> (p matches SlashPlan::Reply { success, message }
            && message@ == spec_slash_plan_kind(command@, context@).1
            && success == (command@ == "help"@)),
{
    if crate::text::str_eq(command, "help") {
        SlashPlan::Reply {
            success: true,
            message: String::from_str("Commandes disponibles:\n/explain - Expliquer un concept\n/resume - Résumer du texte\n/debug - Analyser une erreur\n/improve - Suggérer des améliorations\n/translate - Traduire du texte"),
        }
    } else if crate::text::str_eq(command, "explain") {
        SlashPlan::AskModel { prompt: join2("Explique clairement et simplement : ", context) }
    } else if crate::text::str_eq(command, "resume") {
        SlashPlan::AskModel { prompt: join2("Résume ce texte de manière concise : ", context) }
    } else if crate::text::str_eq(command, "debug") {
        SlashPlan::AskModel { prompt: join2("Analyse cette erreur et propose une solution : ", context) }
    } else if crate::text::str_eq(command, "improve") {
        SlashPlan::AskModel { prompt: join2("Suggère des améliorations pour : ", context) }
    } else if crate::text::str_eq(command, "translate") {
        SlashPlan::AskModel {
            prompt: join2("Traduis ce texte en français (ou en anglais s'il est déjà en français) : ", context),
        }
    } else {
        SlashPlan::Reply { success: false, message: join2("Commande inconnue: /", command) }
    }
}

/// `serde_json::Value`, carried as an opaque value.
#[verifier::external_type_specification]
#[verifier::external_body]
pub struct ExJsonValue(serde_json::Value);

/// Result of a slash command; no command attaches data.
#[derive(Debug, Clone)]
pub struct SlashCommandResult {
    pub success: bool,
    pub message: String,
    pub data: Option<serde_json::Value>,
}

/// The result of a slash command once the model (if asked) answered:
/// the model's answer, or "Failed to chat with LLM: ..." on error.
pub fn slash_command_result(plan: SlashPlan, model_answer: Option<Result<String, String>>) -> (r: Result<SlashCommandResult, String>)
    ensures
        match plan {
            SlashPlan::Reply { success, message } => r matches Ok(res) && res.success == success && res.message@ == message@
                && res.data is None,
            SlashPlan::AskModel { .. } => match model_answer {
                Some(Ok(a)) => r matches Ok(res) && res.success && res.message@ == a@ && res.data is None,
                Some(Err(e)) => r matches Err(m) && m@ == "Failed to chat with LLM: "@ + e@,
                None => r matches Err(m) && m@ == "Failed to chat with LLM: no answer"@,
            },
        },
{
    match plan {
        SlashPlan::Reply { success, message } => Ok(SlashCommandResult { success, message, data: None }),
        SlashPlan::AskModel { .. } => match model_answer {
            Some(Ok(a)) => Ok(SlashCommandResult { success: true, message: a, data: None }),
            Some(Err(e)) => Err(join2("Failed to chat with LLM: ", e.as_str())),
            None => Err(String::from_str("Failed to chat with LLM: no answer")),
        },
    }
}

/// Counts of the chat client (the average time to the first response is
/// the total over the successful requests).
#[derive(Debug, Clone, Copy, PartialEq, Eq, Structural)]
pub struct LLMClientStats {
    pub total_requests: u64,
    pub successful_requests: u64,
    pub failed_requests: u64,
    pub fallback_used: u64,
    pub total_ttfr_ms: u64,
}

/// One more, stopping at the largest value.
pub open spec fn spec_count_up(x: u64) -> u64 {
    if x < u64::MAX { (x + 1) as u64 } else { x }
}

fn count_up(x: u64) -> (y: u64)
    ensures
        y == spec_count_up(x),
{
    if x < u64::MAX { x + 1 } else { x }
}

impl LLMClientStats {
    /// No request yet.
    pub fn new() -> (s: Self)
        ensures
            s == (LLMClientStats { total_requests: 0, successful_requests: 0, failed_requests: 0, fallback_used: 0, total_ttfr_ms: 0 }),
    {
        LLMClientStats { total_requests: 0, successful_requests: 0, failed_requests: 0, fallback_used: 0, total_ttfr_ms: 0 }
    }

    /// Counts a request as it starts.
    pub fn record_request(&mut self)
        ensures
            *final(self) == (LLMClientStats { total_requests: spec_count_up(old(self).total_requests), ..*old(self) }),
    {
        self.total_requests = count_up(self.total_requests);
    }

    /// Counts a successful request, answered after `ttfr_ms`, by the
    /// fallback provider or not.
    pub fn record_success(&mut self, used_fallback: bool, ttfr_ms: u64)
        ensures
            *final(self) == (LLMClientStats {
                successful_requests: spec_count_up(old(self).successful_requests),
                fallback_used: if used_fallback { spec_count_up(old(self).fallback_used) } else { old(self).fallback_used },
                total_ttfr_ms: if old(self).total_ttfr_ms + ttfr_ms <= u64::MAX { (old(self).total_ttfr_ms + ttfr_ms) as u64 } else { u64::MAX },
                ..*old(self)
            }),
    {
        self.successful_requests = count_up(self.successful_requests);
        if used_fallback {
            self.fallback_used = count_up(self.fallback_used);
        }
        self.total_ttfr_ms = self.total_ttfr_ms.saturating_add(ttfr_ms);
    }

    /// Counts a request that failed on both providers.
    pub fn record_failure(&mut self)
        ensures
            *final(self) == (LLMClientStats { failed_requests: spec_count_up(old(self).failed_requests), ..*old(self) }),
    {
        self.failed_requests = count_up(self.failed_requests);
    }
}

} // verus!
