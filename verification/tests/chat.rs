use wren::chat::error_from_field;
use wren::chat::{
    apply_capability_filter, approval_timeout_line, build_user_content, chat_line_chunks, chat_request_messages,
    check_browser_url, classify_http_error, classify_transport_error, extract_ollama_error_message,
    final_answer_chunks, api_endpoint, malformed_response_error, missing_message_error, no_model_selected_error,
    route_message, sanitize_assistant_content, stalled_error, strip_pattern, take_line, stream_line_text,
    tool_call_line, tool_denial_content, tool_denied_line, tool_failure_line, tool_loop_exceeded_error,
    tool_request_messages, Capabilities, ChatMessage, ConversationHistory, GenerationState, OllamaErrorKind,
    RouteDecision, StreamChunk, STRIP_PATTERN_COUNT, TOOL_AGENT_PROMPT,
};

fn msg(role: &str, content: &str, images: Option<Vec<String>>) -> ChatMessage {
    ChatMessage {
        role: role.to_string(),
        content: content.to_string(),
        images,
    }
}

// ─── Conversation history ──────────────────────────────────────────────────

#[test]
fn conversation_history_new_starts_at_epoch_zero() {
    let h = ConversationHistory::new();
    assert_eq!(h.epoch, 0);
    assert!(h.messages.is_empty());
}

#[test]
fn conversation_history_epoch_increments_on_clear() {
    let mut h = ConversationHistory::new();
    h.messages.push(msg("user", "hi", None));
    h.reset();
    assert_eq!(h.epoch, 1);
    assert!(h.messages.is_empty());
}

#[test]
fn history_commit_appends_user_and_sanitized_reply() {
    let mut h = ConversationHistory::new();
    let committed = h.commit_turn(0, msg("user", "question", None), "answer<|im_end|>");
    assert!(committed);
    assert_eq!(h.messages.len(), 2);
    assert_eq!(h.messages[0].content, "question");
    assert_eq!(h.messages[1].role, "assistant");
    assert_eq!(h.messages[1].content, "answer");
}

#[test]
fn history_reset_discards_turn_started_before_it() {
    let mut h = ConversationHistory::new();
    let epoch_at_start = h.epoch;
    h.reset();
    let committed = h.commit_turn(epoch_at_start, msg("user", "stale", None), "reply");
    assert!(!committed);
    assert!(h.messages.is_empty());
    assert_eq!(h.epoch, 1);
}

#[test]
fn history_empty_reply_is_not_committed() {
    let mut h = ConversationHistory::new();
    assert!(!h.commit_turn(0, msg("user", "q", None), ""));
    assert!(h.messages.is_empty());
}

// ─── OllamaError classification ────────────────────────────────────────────

#[test]
fn classify_http_404_returns_model_not_found() {
    let err = classify_http_error(404, "gemma4:e2b", "");
    assert_eq!(err.kind, OllamaErrorKind::ModelNotFound);
    assert!(err.message.contains("gemma4:e2b"));
}

#[test]
fn classify_http_404_includes_requested_model_name_in_hint() {
    let err = classify_http_error(404, "custom:model", "");
    assert_eq!(err.kind, OllamaErrorKind::ModelNotFound);
    assert!(err.message.contains("custom:model"));
}

#[test]
fn classify_http_500_with_empty_body_falls_back_to_status_code() {
    let err = classify_http_error(500, "gemma4:e2b", "");
    assert_eq!(err.kind, OllamaErrorKind::Other);
    assert!(err.message.contains("500"));
}

#[test]
fn classify_http_500_surfaces_ollama_error_text_when_present() {
    let body =
        r#"{"error":"this model only supports one image while more than one image requested"}"#;
    let err = classify_http_error(500, "llama3.2-vision:11b", body);
    assert_eq!(err.kind, OllamaErrorKind::Other);
    assert!(err
        .message
        .contains("only supports one image while more than one image requested"));
    assert!(!err.message.contains("HTTP 500"));
}

#[test]
fn classify_http_500_falls_back_to_status_when_body_is_not_json() {
    let err = classify_http_error(500, "any", "<html>oops</html>");
    assert_eq!(err.kind, OllamaErrorKind::Other);
    assert!(err.message.contains("500"));
}

#[test]
fn classify_http_500_falls_back_to_status_when_error_field_is_missing() {
    let err = classify_http_error(500, "any", r#"{"detail":"nope"}"#);
    assert_eq!(err.kind, OllamaErrorKind::Other);
    assert!(err.message.contains("500"));
}

#[test]
fn classify_http_500_falls_back_to_status_when_error_field_is_blank() {
    let err = classify_http_error(500, "any", r#"{"error":"   "}"#);
    assert_eq!(err.kind, OllamaErrorKind::Other);
    assert!(err.message.contains("500"));
}

#[test]
fn extract_ollama_error_message_handles_known_shapes() {
    assert_eq!(extract_ollama_error_message(""), None);
    assert_eq!(extract_ollama_error_message("   "), None);
    assert_eq!(extract_ollama_error_message("not json"), None);
    assert_eq!(extract_ollama_error_message(r#"{}"#), None);
    assert_eq!(
        extract_ollama_error_message(r#"{"error":""}"#),
        None,
        "blank error string should be treated as missing",
    );
    assert_eq!(
        extract_ollama_error_message(r#"{"error":"boom"}"#).as_deref(),
        Some("boom"),
    );
}

#[test]
fn classify_http_401_returns_other_with_status() {
    let err = classify_http_error(401, "gemma4:e2b", "");
    assert_eq!(err.kind, OllamaErrorKind::Other);
    assert!(err.message.contains("401"));
}

#[test]
fn no_model_selected_error_uses_typed_kind_and_actionable_message() {
    let err = no_model_selected_error();
    assert_eq!(err.kind, OllamaErrorKind::NoModelSelected);
    assert!(
        err.message.contains("Pick a model"),
        "message should steer the user to the picker, got: {}",
        err.message,
    );
}

#[test]
fn classify_http_500_appends_picker_hint_when_body_mentions_image() {
    let body = r#"{"error":"this model only supports one image"}"#;
    let err = classify_http_error(500, "any", body);
    assert_eq!(err.kind, OllamaErrorKind::Other);
    assert!(err.message.contains("only supports one image"));
    assert!(err.message.contains("picker chip"));
}

#[test]
fn classify_http_500_appends_picker_hint_when_body_mentions_vision() {
    let body = r#"{"error":"vision capability required"}"#;
    let err = classify_http_error(500, "any", body);
    assert_eq!(err.kind, OllamaErrorKind::Other);
    assert!(err.message.contains("vision capability required"));
    assert!(err.message.contains("picker chip"));
}

#[test]
fn classify_http_500_omits_picker_hint_for_unrelated_errors() {
    let body = r#"{"error":"context window exceeded"}"#;
    let err = classify_http_error(500, "any", body);
    assert!(!err.message.contains("picker chip"));
}

#[test]
fn classify_http_500_omits_picker_hint_when_body_is_empty() {
    let err = classify_http_error(500, "any", "");
    assert!(!err.message.contains("picker chip"));
    assert!(err.message.contains("500"));
}

#[test]
fn classify_http_404_does_not_append_picker_hint() {
    let err = classify_http_error(404, "vision-model", "image required");
    assert_eq!(err.kind, OllamaErrorKind::ModelNotFound);
    assert!(!err.message.contains("picker chip"));
}

#[test]
fn transport_errors_map_to_not_running_or_other() {
    let e = classify_transport_error(true, false);
    assert_eq!(e.kind, OllamaErrorKind::NotRunning);
    assert_eq!(e.message, "Ollama isn't running\nStart Ollama and try again.");
    let e = classify_transport_error(false, true);
    assert_eq!(e.kind, OllamaErrorKind::NotRunning);
    let e = classify_transport_error(false, false);
    assert_eq!(e.kind, OllamaErrorKind::Other);
    assert_eq!(e.message, "Something went wrong\nCould not reach Ollama.");
}

#[test]
fn stalled_error_names_the_timeout() {
    let e = stalled_error(60);
    assert_eq!(e.kind, OllamaErrorKind::Other);
    assert_eq!(
        e.message,
        "Stalled\nOllama stopped sending tokens for 60 seconds. The runner may have crashed; try cancelling and asking again."
    );
}

// ─── sanitize_assistant_content ────────────────────────────────────────────

#[test]
fn sanitize_returns_clean_input_unchanged() {
    let input = "Hello **world**\n\n```rust\nlet x = 1;\n```\nDone.";
    assert_eq!(sanitize_assistant_content(input), input);
}

#[test]
fn sanitize_strips_every_known_pattern() {
    for i in 0..STRIP_PATTERN_COUNT {
        let pattern = strip_pattern(i);
        let dirty = format!("before{pattern}after");
        assert_eq!(
            sanitize_assistant_content(&dirty),
            "beforeafter",
            "pattern {pattern} should be removed"
        );
    }
}

#[test]
fn sanitize_strips_multiple_occurrences() {
    let dirty = "<|im_start|>a<|im_start|>b<|im_end|>c";
    assert_eq!(sanitize_assistant_content(dirty), "abc");
}

#[test]
fn sanitize_drops_unsafe_control_chars_but_keeps_whitespace() {
    let dirty = "a\x00b\x07c\nd\te\rf\x1Fg";
    assert_eq!(sanitize_assistant_content(dirty), "abc\nd\te\rfg");
}

#[test]
fn sanitize_preserves_unicode_and_emoji() {
    let input = "héllo 世界 🚀\nline two";
    assert_eq!(sanitize_assistant_content(input), input);
}

#[test]
fn sanitize_handles_empty_string() {
    assert_eq!(sanitize_assistant_content(""), "");
}

#[test]
fn sanitize_is_idempotent_on_its_output() {
    let once = sanitize_assistant_content("<|im_start|>x\x07y</think>");
    assert_eq!(once, "xy");
    assert_eq!(sanitize_assistant_content(&once), once);
}

// ─── apply_capability_filter ───────────────────────────────────────────────

#[test]
fn filter_strips_images_when_vision_false() {
    let mut messages = vec![
        msg("user", "first", Some(vec!["a".to_string(), "b".to_string()])),
        msg("assistant", "reply", None),
        msg("user", "again", Some(vec!["c".to_string()])),
    ];
    let caps = Capabilities {
        vision: false,
        thinking: false,
        max_images: None,
    };
    let stats = apply_capability_filter(&mut messages, &caps);
    assert_eq!(stats.stripped_images, 3);
    assert!(messages.iter().all(|m| m.images.is_none()));
}

#[test]
fn filter_preserves_images_when_vision_true_and_no_cap() {
    let mut messages = vec![msg("user", "x", Some(vec!["a".to_string(), "b".to_string()]))];
    let caps = Capabilities {
        vision: true,
        thinking: false,
        max_images: None,
    };
    let stats = apply_capability_filter(&mut messages, &caps);
    assert_eq!(stats.stripped_images, 0);
    assert_eq!(messages[0].images.as_ref().unwrap().len(), 2);
}

#[test]
fn filter_truncates_to_max_images_keeping_first() {
    let mut messages = vec![msg(
        "user",
        "x",
        Some(vec!["first".to_string(), "second".to_string(), "third".to_string()]),
    )];
    let caps = Capabilities {
        vision: true,
        thinking: false,
        max_images: Some(1),
    };
    let stats = apply_capability_filter(&mut messages, &caps);
    assert_eq!(stats.stripped_images, 2);
    let imgs = messages[0].images.as_ref().unwrap();
    assert_eq!(imgs.len(), 1);
    assert_eq!(imgs[0], "first");
}

#[test]
fn filter_no_op_when_under_max_images() {
    let mut messages = vec![msg("user", "x", Some(vec!["only".to_string()]))];
    let caps = Capabilities {
        vision: true,
        thinking: false,
        max_images: Some(2),
    };
    let stats = apply_capability_filter(&mut messages, &caps);
    assert_eq!(stats.stripped_images, 0);
    assert_eq!(messages[0].images.as_ref().unwrap().len(), 1);
}

#[test]
fn filter_handles_text_only_messages_under_vision_false() {
    let mut messages = vec![msg("user", "hi", None), msg("assistant", "hello", None)];
    let caps = Capabilities {
        vision: false,
        thinking: false,
        max_images: None,
    };
    let stats = apply_capability_filter(&mut messages, &caps);
    assert_eq!(stats.stripped_images, 0);
}

#[test]
fn filter_skips_messages_without_images_under_max_cap() {
    let mut messages = vec![
        msg("user", "no imgs", None),
        msg("user", "two imgs", Some(vec!["a".to_string(), "b".to_string()])),
    ];
    let caps = Capabilities {
        vision: true,
        thinking: false,
        max_images: Some(1),
    };
    let stats = apply_capability_filter(&mut messages, &caps);
    assert_eq!(stats.stripped_images, 1);
    assert!(messages[0].images.is_none());
    assert_eq!(messages[1].images.as_ref().unwrap().len(), 1);
}

#[test]
fn filter_never_touches_text() {
    let mut messages = vec![msg("user", "keep me", Some(vec!["a".to_string()]))];
    let caps = Capabilities {
        vision: false,
        thinking: true,
        max_images: Some(3),
    };
    apply_capability_filter(&mut messages, &caps);
    assert_eq!(messages[0].role, "user");
    assert_eq!(messages[0].content, "keep me");
}

// ─── Routing and request building ──────────────────────────────────────────

#[test]
fn route_slash_tool_prefix_forces_tool_route_and_is_stripped() {
    let r = route_message("/tool what is on my clipboard", false);
    assert_eq!(r.decision, RouteDecision::Tool);
    assert_eq!(r.message, "what is on my clipboard");
}

#[test]
fn route_slash_chat_prefix_forces_chat_route() {
    let r = route_message("/chat read the file C:/x.txt", false);
    assert_eq!(r.decision, RouteDecision::Chat);
    assert_eq!(r.message, "read the file C:/x.txt");
}

#[test]
fn route_images_stay_on_chat_route() {
    let r = route_message("read this file", true);
    assert_eq!(r.decision, RouteDecision::Chat);
    assert_eq!(r.message, "read this file");
}

#[test]
fn user_content_labels_quoted_text() {
    assert_eq!(
        build_user_content("explain", Some("x = 1")),
        "[Highlighted Text]\n\"x = 1\"\n\n[Request]\nexplain"
    );
    assert_eq!(build_user_content("explain", Some("   ")), "explain");
    assert_eq!(build_user_content("explain", None), "explain");
}

#[test]
fn api_endpoint_drops_trailing_slashes() {
    assert_eq!(api_endpoint("http://127.0.0.1:11434//", "/api/chat"), "http://127.0.0.1:11434/api/chat");
    assert_eq!(api_endpoint("http://h", "/api/pull"), "http://h/api/pull");
}

#[test]
fn chat_request_is_system_history_then_user() {
    let history = vec![msg("user", "a", None), msg("assistant", "b", None)];
    let user = msg("user", "c", Some(vec!["img".to_string()]));
    let r = chat_request_messages("persona", &history, &user);
    assert_eq!(r.len(), 4);
    assert_eq!(r[0].role, "system");
    assert_eq!(r[0].content, "persona");
    assert_eq!(r[1].content, "a");
    assert_eq!(r[2].content, "b");
    assert_eq!(r[3].images, Some(vec!["img".to_string()]));
}

#[test]
fn tool_request_is_agent_prompt_history_then_user() {
    let history = vec![msg("user", "a", Some(vec!["img".to_string()]))];
    let r = tool_request_messages(&history, "do it");
    assert_eq!(r.len(), 3);
    assert_eq!(r[0], ("system".to_string(), TOOL_AGENT_PROMPT.to_string()));
    assert_eq!(r[1], ("user".to_string(), "a".to_string()));
    assert_eq!(r[2], ("user".to_string(), "do it".to_string()));
}

// ─── Streaming ─────────────────────────────────────────────────────────────

#[test]
fn take_line_splits_at_first_newline() {
    let mut buf = b"one\ntwo\nthr".to_vec();
    assert_eq!(take_line(&mut buf), Some(b"one\n".to_vec()));
    assert_eq!(take_line(&mut buf), Some(b"two\n".to_vec()));
    assert_eq!(take_line(&mut buf), None);
    assert_eq!(buf, b"thr".to_vec());
}

#[test]
fn stream_line_text_trims_and_skips_blank_or_invalid() {
    assert_eq!(stream_line_text(b"  {\"a\":1}\r\n".to_vec()), Some("{\"a\":1}".to_string()));
    assert_eq!(stream_line_text(b"   \n".to_vec()), None);
    assert_eq!(stream_line_text(vec![0xff, 0xfe, b'\n']), None);
}

#[test]
fn chat_line_emits_thinking_then_token_then_done() {
    let mut acc = String::from("He");
    let chunks = chat_line_chunks(Some("step".to_string()), Some("llo".to_string()), Some(true), &mut acc);
    assert_eq!(chunks.len(), 3);
    assert!(matches!(&chunks[0], StreamChunk::ThinkingToken(t) if t == "step"));
    assert!(matches!(&chunks[1], StreamChunk::Token(t) if t == "llo"));
    assert!(matches!(&chunks[2], StreamChunk::Done));
    assert_eq!(acc, "Hello");
}

#[test]
fn chat_line_skips_empty_thinking_and_content() {
    let mut acc = String::new();
    let chunks = chat_line_chunks(Some(String::new()), Some(String::new()), Some(false), &mut acc);
    assert!(chunks.is_empty());
    assert_eq!(acc, "");
}

// ─── Tool loop ─────────────────────────────────────────────────────────────

#[test]
fn final_answer_emits_token_then_done() {
    let c = final_answer_chunks("answer");
    assert_eq!(c.len(), 2);
    assert!(matches!(&c[0], StreamChunk::Token(t) if t == "answer"));
    assert!(matches!(&c[1], StreamChunk::Done));
    let c = final_answer_chunks("");
    assert_eq!(c.len(), 1);
    assert!(matches!(&c[0], StreamChunk::Done));
}

#[test]
fn tool_status_lines_have_their_exact_text() {
    assert_eq!(
        tool_denial_content("write_file"),
        "Error: User denied permission to run `write_file`. Do not retry; explain to the user that you cannot perform this action and suggest an alternative."
    );
    assert_eq!(tool_denied_line("run_shell"), "[tool] run_shell denied by user\n");
    assert_eq!(approval_timeout_line("run_shell"), "[tool] run_shell approval timed out after 300s\n");
    assert_eq!(tool_call_line("glob", "{\"pattern\":\"*\"}"), "[tool] glob({\"pattern\":\"*\"})\n");
}

#[test]
fn tool_failure_line_shows_first_line_of_errors_only() {
    assert_eq!(
        tool_failure_line("read_file", "Error: read x: missing\r\nmore"),
        Some("[tool] read_file -> Error: read x: missing\n".to_string())
    );
    assert_eq!(tool_failure_line("read_file", "contents"), None);
}

#[test]
fn tool_loop_errors_have_their_exact_text() {
    let e = tool_loop_exceeded_error();
    assert_eq!(e.kind, OllamaErrorKind::Other);
    assert_eq!(
        e.message,
        "Tool loop exceeded\nReached the 10-round safety cap before the model produced a final answer."
    );
    assert_eq!(malformed_response_error().message, "Something went wrong\nMalformed response from Ollama.");
    assert_eq!(missing_message_error().message, "Something went wrong\nResponse missing message field.");
}

#[test]
fn browser_url_accepts_only_http_and_https() {
    assert!(check_browser_url("https://example.com").is_ok());
    assert!(check_browser_url("http://example.com").is_ok());
    assert_eq!(
        check_browser_url("file:///etc/passwd"),
        Err("Only http/https URLs are supported".to_string())
    );
}

// ─── Generation state ──────────────────────────────────────────────────────

#[test]
fn approval_is_resolved_once() {
    let mut g: GenerationState<u32, &'static str> = GenerationState::new();
    g.register_approval("id-1".to_string(), "sender");
    assert_eq!(g.resolve_approval("id-1"), Some("sender"));
    assert_eq!(g.resolve_approval("id-1"), None);
}

#[test]
fn cancel_returns_token_and_drops_pending_approvals() {
    let mut g: GenerationState<u32, &'static str> = GenerationState::new();
    g.set_token(7);
    g.register_approval("a".to_string(), "x");
    g.register_approval("b".to_string(), "y");
    assert_eq!(g.cancel(), Some(7));
    assert_eq!(g.resolve_approval("a"), None);
    assert_eq!(g.resolve_approval("b"), None);
    assert_eq!(g.cancel(), None);
}

#[test]
fn clear_token_forgets_without_cancelling() {
    let mut g: GenerationState<u32, &'static str> = GenerationState::new();
    g.set_token(1);
    g.register_approval("a".to_string(), "x");
    g.clear_token();
    assert_eq!(g.cancel(), None);
}

// ─── Generation state with cancellation tokens ─────────────────────────────

type TokenState = GenerationState<tokio_util::sync::CancellationToken, tokio::sync::oneshot::Sender<bool>>;

fn cancel_state(state: &mut TokenState) {
    if let Some(token) = state.cancel() {
        token.cancel();
    }
}

#[test]
fn generation_state_set_and_cancel() {
    let mut state: TokenState = GenerationState::new();
    let token = tokio_util::sync::CancellationToken::new();
    let token_clone = token.clone();

    state.set_token(token);
    assert!(!token_clone.is_cancelled());

    cancel_state(&mut state);
    assert!(token_clone.is_cancelled());
}

#[test]
fn generation_state_cancel_when_empty() {
    let mut state: TokenState = GenerationState::new();
    assert!(state.cancel().is_none());
}

#[test]
fn generation_state_clear_does_not_cancel() {
    let mut state: TokenState = GenerationState::new();
    let token = tokio_util::sync::CancellationToken::new();
    let token_clone = token.clone();

    state.set_token(token);
    state.clear_token();
    assert!(!token_clone.is_cancelled());
    assert!(state.cancel().is_none());
}

#[test]
fn generation_state_set_replaces_previous() {
    let mut state: TokenState = GenerationState::new();
    let first = tokio_util::sync::CancellationToken::new();
    let first_clone = first.clone();
    let second = tokio_util::sync::CancellationToken::new();
    let second_clone = second.clone();

    state.set_token(first);
    state.set_token(second);

    cancel_state(&mut state);
    assert!(!first_clone.is_cancelled());
    assert!(second_clone.is_cancelled());
}


#[test]
fn filtering_twice_drops_nothing_more() {
    let mut messages = vec![
        msg("user", "x", Some(vec!["a".to_string(), "b".to_string(), "c".to_string()])),
        msg("assistant", "y", None),
    ];
    let caps = Capabilities { vision: true, thinking: false, max_images: Some(2) };
    assert_eq!(apply_capability_filter(&mut messages, &caps).stripped_images, 1);
    let once = messages.clone();
    assert_eq!(apply_capability_filter(&mut messages, &caps).stripped_images, 0);
    for (m, o) in messages.iter().zip(once.iter()) {
        assert_eq!(m.role, o.role);
        assert_eq!(m.content, o.content);
        assert_eq!(m.images, o.images);
    }
}

#[test]
fn sanitize_leaves_no_token_hidden_by_controls_or_other_tokens() {
    assert_eq!(sanitize_assistant_content("a<|im_\u{0}start|>b"), "ab");
    assert_eq!(sanitize_assistant_content("a<|im_<think>start|>b"), "ab");
    assert_eq!(sanitize_assistant_content("x[IN[/INST]ST]y"), "xy");
    assert_eq!(sanitize_assistant_content("keep\n\tthis\r"), "keep\n\tthis\r");
}

#[test]
fn error_field_is_trimmed_and_blank_is_none() {
    assert_eq!(error_from_field(Some("  boom \n".to_string())), Some("boom".to_string()));
    assert_eq!(error_from_field(Some("   ".to_string())), None);
    assert_eq!(error_from_field(None), None);
}
