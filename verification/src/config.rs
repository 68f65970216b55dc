//! The configuration sections and their compiled defaults. A partial
//! configuration file falls back, field by field, to these defaults.
use vstd::prelude::*;
use crate::text::owned;

verus! {

broadcast use vstd::string::group_string_axioms;

/// Default HTTP base URL of the local Ollama instance.
pub const DEFAULT_OLLAMA_URL: &'static str = "http://127.0.0.1:11434";

/// Default number of lines of a quote shown in the overlay.
pub const DEFAULT_QUOTE_MAX_DISPLAY_LINES: u32 = 4;

/// Default number of characters of a quote shown in the overlay.
pub const DEFAULT_QUOTE_MAX_DISPLAY_CHARS: u32 = 300;

/// Default number of characters of a quote sent to the model.
pub const DEFAULT_QUOTE_MAX_CONTEXT_LENGTH: u32 = 4096;

/// Default SearXNG base URL.
pub const DEFAULT_SEARXNG_URL: &'static str = "http://127.0.0.1:25017";

/// Default reader sidecar base URL.
pub const DEFAULT_READER_URL: &'static str = "http://127.0.0.1:25018";

/// Default number of search-refine iterations.
pub const DEFAULT_MAX_ITERATIONS: u32 = 3;

/// Default number of top-ranked URLs forwarded to the reader.
pub const DEFAULT_TOP_K_URLS: u32 = 10;

/// Default number of results each SearXNG query contributes.
pub const DEFAULT_SEARXNG_MAX_RESULTS: u32 = 10;

/// Default SearXNG query timeout, in seconds.
pub const DEFAULT_SEARCH_TIMEOUT_S: u64 = 20;

/// Default per-URL reader timeout, in seconds.
pub const DEFAULT_READER_PER_URL_TIMEOUT_S: u64 = 10;

/// Default reader batch timeout, in seconds.
pub const DEFAULT_READER_BATCH_TIMEOUT_S: u64 = 30;

/// Default judge call timeout, in seconds.
pub const DEFAULT_JUDGE_TIMEOUT_S: u64 = 30;

/// Default router call timeout, in seconds.
pub const DEFAULT_ROUTER_TIMEOUT_S: u64 = 45;

/// Default whisper model filename (none configured).
pub const DEFAULT_VOICE_MODEL: &'static str = "";

/// Push-to-talk is off until the user opts in.
pub const DEFAULT_VOICE_ENABLED: bool = false;

/// Spoken replies are off until the user opts in.
pub const DEFAULT_TTS_ENABLED: bool = false;

/// Default speech voice (the system default).
pub const DEFAULT_TTS_VOICE: &'static str = "";

/// Default speech rate.
pub const DEFAULT_TTS_RATE: i32 = 0;

/// Default MCP server list (none).
pub const DEFAULT_MCP_SERVERS_JSON: &'static str = "";

/// Static inference daemon configuration.
#[derive(Debug, Clone, PartialEq, Eq)]
pub struct InferenceSection {
    /// HTTP base URL of the local Ollama instance.
    pub ollama_url: String,
    /// Ollama slug for the tool route; empty falls through to the active
    /// chat model.
    pub tool_model: String,
}

impl Default for InferenceSection {
    fn default() -> (s: Self)
        ensures
            s.ollama_url@ == DEFAULT_OLLAMA_URL@,
            s.tool_model@.len() == 0,
    {
        InferenceSection { ollama_url: owned(DEFAULT_OLLAMA_URL), tool_model: String::new() }
    }
}

/// Prompt configuration: the user-editable base text and the composed
/// runtime value.
#[derive(Debug, Clone, PartialEq, Eq)]
pub struct PromptSection {
    /// User-editable persona prompt; empty means the built-in default.
    pub system: String,
    /// Composed runtime value (base prompt plus slash-command appendix).
    pub resolved_system: String,
}

impl Default for PromptSection {
    fn default() -> (s: Self)
        ensures
            s.system@.len() == 0,
            s.resolved_system@.len() == 0,
    {
        PromptSection { system: String::new(), resolved_system: String::new() }
    }
}

/// Selected-text quote display configuration.
#[derive(Debug, Clone, Copy, PartialEq, Eq)]
pub struct QuoteSection {
    pub max_display_lines: u32,
    pub max_display_chars: u32,
    pub max_context_length: u32,
}

impl Default for QuoteSection {
    fn default() -> (s: Self)
        ensures
            s.max_display_lines == DEFAULT_QUOTE_MAX_DISPLAY_LINES,
            s.max_display_chars == DEFAULT_QUOTE_MAX_DISPLAY_CHARS,
            s.max_context_length == DEFAULT_QUOTE_MAX_CONTEXT_LENGTH,
    {
        QuoteSection {
            max_display_lines: DEFAULT_QUOTE_MAX_DISPLAY_LINES,
            max_display_chars: DEFAULT_QUOTE_MAX_DISPLAY_CHARS,
            max_context_length: DEFAULT_QUOTE_MAX_CONTEXT_LENGTH,
        }
    }
}

/// Search pipeline and service configuration.
#[derive(Debug, Clone, PartialEq, Eq)]
pub struct SearchSection {
    /// Base URL of the SearXNG instance.
    pub searxng_url: String,
    /// Base URL of the reader sidecar.
    pub reader_url: String,
    /// Maximum number of search-refine iterations.
    pub max_iterations: u32,
    /// Number of top-ranked URLs forwarded to the reader.
    pub top_k_urls: u32,
    /// Maximum number of results each SearXNG query contributes.
    pub searxng_max_results: u32,
    /// Seconds before a SearXNG query is abandoned.
    pub search_timeout_s: u64,
    /// Seconds allowed for a single URL fetch inside the reader.
    pub reader_per_url_timeout_s: u64,
    /// Seconds allowed for the full reader batch.
    pub reader_batch_timeout_s: u64,
    /// Seconds before the judge call is abandoned.
    pub judge_timeout_s: u64,
    /// Seconds before the router call is abandoned.
    pub router_timeout_s: u64,
}

impl Default for SearchSection {
    fn default() -> (s: Self)
        ensures
            s.searxng_url@ == DEFAULT_SEARXNG_URL@,
            s.reader_url@ == DEFAULT_READER_URL@,
            s.max_iterations == DEFAULT_MAX_ITERATIONS,
            s.top_k_urls == DEFAULT_TOP_K_URLS,
            s.searxng_max_results == DEFAULT_SEARXNG_MAX_RESULTS,
            s.search_timeout_s == DEFAULT_SEARCH_TIMEOUT_S,
            s.reader_per_url_timeout_s == DEFAULT_READER_PER_URL_TIMEOUT_S,
            s.reader_batch_timeout_s == DEFAULT_READER_BATCH_TIMEOUT_S,
            s.judge_timeout_s == DEFAULT_JUDGE_TIMEOUT_S,
            s.router_timeout_s == DEFAULT_ROUTER_TIMEOUT_S,
    {
        SearchSection {
            searxng_url: owned(DEFAULT_SEARXNG_URL),
            reader_url: owned(DEFAULT_READER_URL),
            max_iterations: DEFAULT_MAX_ITERATIONS,
            top_k_urls: DEFAULT_TOP_K_URLS,
            searxng_max_results: DEFAULT_SEARXNG_MAX_RESULTS,
            search_timeout_s: DEFAULT_SEARCH_TIMEOUT_S,
            reader_per_url_timeout_s: DEFAULT_READER_PER_URL_TIMEOUT_S,
            reader_batch_timeout_s: DEFAULT_READER_BATCH_TIMEOUT_S,
            judge_timeout_s: DEFAULT_JUDGE_TIMEOUT_S,
            router_timeout_s: DEFAULT_ROUTER_TIMEOUT_S,
        }
    }
}

/// Voice input and speech output configuration.
#[derive(Debug, Clone, PartialEq, Eq)]
pub struct VoiceSection {
    pub enabled: bool,
    pub model: String,
    pub tts_enabled: bool,
    pub tts_voice: String,
    pub tts_rate: i32,
}

impl Default for VoiceSection {
    fn default() -> (s: Self)
        ensures
            s.enabled == DEFAULT_VOICE_ENABLED,
            s.model@ == DEFAULT_VOICE_MODEL@,
            s.tts_enabled == DEFAULT_TTS_ENABLED,
            s.tts_voice@ == DEFAULT_TTS_VOICE@,
            s.tts_rate == DEFAULT_TTS_RATE,
    {
        VoiceSection {
            enabled: DEFAULT_VOICE_ENABLED,
            model: owned(DEFAULT_VOICE_MODEL),
            tts_enabled: DEFAULT_TTS_ENABLED,
            tts_voice: owned(DEFAULT_TTS_VOICE),
            tts_rate: DEFAULT_TTS_RATE,
        }
    }
}

/// One MCP server definition.
#[derive(Debug, Clone, PartialEq, Eq)]
pub struct McpServerConfig {
    pub name: String,
    pub command: String,
    pub args: Vec<String>,
    pub env: std::collections::BTreeMap<String, String>,
}

/// MCP client configuration: the user-editable JSON list of servers and
/// its parsed form.
#[derive(Debug, Clone, PartialEq, Eq)]
pub struct McpSection {
    /// User-editable JSON array of server definitions.
    pub servers_json: String,
    /// Parsed `servers_json`, computed at load time.
    pub servers: Vec<McpServerConfig>,
}

impl Default for McpSection {
    fn default() -> (s: Self)
        ensures
            s.servers_json@ == DEFAULT_MCP_SERVERS_JSON@,
            s.servers@.len() == 0,
    {
        McpSection { servers_json: owned(DEFAULT_MCP_SERVERS_JSON), servers: Vec::new() }
    }
}

} // verus!
