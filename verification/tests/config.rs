use wren::config::{
    InferenceSection, McpSection, PromptSection, QuoteSection, SearchSection, VoiceSection, DEFAULT_OLLAMA_URL,
};

#[test]
fn section_defaults_are_the_compiled_defaults() {
    let i = InferenceSection::default();
    assert_eq!(i.ollama_url, DEFAULT_OLLAMA_URL);
    assert_eq!(i.ollama_url, "http://127.0.0.1:11434");
    assert!(i.tool_model.is_empty());
    let p = PromptSection::default();
    assert!(p.system.is_empty() && p.resolved_system.is_empty());
    let q = QuoteSection::default();
    assert_eq!((q.max_display_lines, q.max_display_chars, q.max_context_length), (4, 300, 4096));
    let s = SearchSection::default();
    assert_eq!(s.searxng_url, "http://127.0.0.1:25017");
    assert_eq!(s.reader_url, "http://127.0.0.1:25018");
    assert_eq!((s.max_iterations, s.top_k_urls, s.searxng_max_results), (3, 10, 10));
    assert_eq!(
        (s.search_timeout_s, s.reader_per_url_timeout_s, s.reader_batch_timeout_s, s.judge_timeout_s, s.router_timeout_s),
        (20, 10, 30, 30, 45)
    );
    let v = VoiceSection::default();
    assert!(!v.enabled && !v.tts_enabled);
    assert!(v.model.is_empty() && v.tts_voice.is_empty());
    assert_eq!(v.tts_rate, 0);
    let m = McpSection::default();
    assert!(m.servers_json.is_empty());
    assert!(m.servers.is_empty());
}
