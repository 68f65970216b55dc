use wren::mcp::inbound_from_frame;
use serde_json::Value;
use wren::config::McpServerConfig;
use wren::mcp::{
    call_result, decode_inbound_line, find_server_config, format_tool_call_result, format_tool_result_text,
    handshake_error, is_mcp_tool_name, mcp_call_failed_error, mcp_dispatch_target, mcp_not_connected_error,
    parse_tools_list_response, server_status, split_mcp_tool_name, CallOutcome, InboundMessage, ServerRegistry,
    MCP_TOOL_NAME_MAX_LEN, MCP_TOOL_RESULT_MAX_BYTES,
};

fn json(text: &str) -> Value {
    serde_json::from_str(text).unwrap()
}

// ── decode_inbound_line ─────────────────────────────────────────────────────

#[test]
fn decode_inbound_line_blank_is_ignored() {
    assert_eq!(decode_inbound_line(""), InboundMessage::Ignored);
    assert_eq!(decode_inbound_line("   \n"), InboundMessage::Ignored);
}

#[test]
fn decode_inbound_line_invalid_json_is_ignored() {
    assert_eq!(decode_inbound_line("not even close to json"), InboundMessage::Ignored);
}

#[test]
fn decode_inbound_line_response_returns_id_and_result() {
    let line = r#"{"jsonrpc":"2.0","id":42,"result":{"x":1}}"#;
    match decode_inbound_line(line) {
        InboundMessage::Response { id, result } => {
            assert_eq!(id, 42);
            assert_eq!(result["x"], 1);
        }
        other => panic!("expected Response, got {other:?}"),
    }
}

#[test]
fn decode_inbound_line_response_missing_result_yields_null() {
    let line = r#"{"jsonrpc":"2.0","id":7}"#;
    match decode_inbound_line(line) {
        InboundMessage::Response { id, result } => {
            assert_eq!(id, 7);
            assert!(result.is_null());
        }
        other => panic!("expected Response, got {other:?}"),
    }
}

#[test]
fn decode_inbound_line_error_returns_message() {
    let line = r#"{"jsonrpc":"2.0","id":3,"error":{"code":-32601,"message":"no such method"}}"#;
    match decode_inbound_line(line) {
        InboundMessage::ResponseError { id, message } => {
            assert_eq!(id, 3);
            assert_eq!(message, "no such method");
        }
        other => panic!("expected ResponseError, got {other:?}"),
    }
}

#[test]
fn decode_inbound_line_error_missing_message_uses_fallback() {
    let line = r#"{"jsonrpc":"2.0","id":3,"error":{"code":-32601}}"#;
    match decode_inbound_line(line) {
        InboundMessage::ResponseError { id, message } => {
            assert_eq!(id, 3);
            assert_eq!(message, "unknown JSON-RPC error");
        }
        other => panic!("expected ResponseError, got {other:?}"),
    }
}

#[test]
fn decode_inbound_line_no_id_is_notification() {
    let line = r#"{"jsonrpc":"2.0","method":"foo","params":{}}"#;
    assert_eq!(decode_inbound_line(line), InboundMessage::Notification);
}

// ── tool name helpers ───────────────────────────────────────────────────────

#[test]
fn is_mcp_tool_name_recognises_prefixed_form() {
    assert!(is_mcp_tool_name("mcp__svr__tool"));
    assert!(is_mcp_tool_name("mcp__a__b__c"));
}

#[test]
fn is_mcp_tool_name_rejects_built_ins() {
    assert!(!is_mcp_tool_name("read_file"));
    assert!(!is_mcp_tool_name("fetch_url"));
    assert!(!is_mcp_tool_name("mcp__nosep"));
    assert!(!is_mcp_tool_name("mcp__"));
}

#[test]
fn split_mcp_tool_name_extracts_components() {
    assert_eq!(split_mcp_tool_name("mcp__svr__tool"), Some(("svr", "tool")));
    assert_eq!(split_mcp_tool_name("mcp__svr__sub__tool"), Some(("svr", "sub__tool")));
}

#[test]
fn split_mcp_tool_name_rejects_invalid() {
    assert!(split_mcp_tool_name("read_file").is_none());
    assert!(split_mcp_tool_name("mcp__nosep").is_none());
    assert!(split_mcp_tool_name("mcp____tool").is_none());
    assert!(split_mcp_tool_name("mcp__svr__").is_none());
}

// ── parse_tools_list_response ───────────────────────────────────────────────

#[test]
fn parse_tools_list_handles_empty_or_missing_array() {
    assert!(parse_tools_list_response("svr", &json("{}")).is_empty());
    assert!(parse_tools_list_response("svr", &json(r#"{"tools": null}"#)).is_empty());
    assert!(parse_tools_list_response("svr", &json(r#"{"tools": "not an array"}"#)).is_empty());
    assert!(parse_tools_list_response("svr", &json(r#"{"tools": []}"#)).is_empty());
}

#[test]
fn parse_tools_list_yields_prefixed_entries() {
    let result = json(
        r#"{"tools": [
            {"name": "read", "description": "reads stuff", "inputSchema": {"type": "object"}},
            {"name": "write"}
        ]}"#,
    );
    let entries = parse_tools_list_response("svr", &result);
    assert_eq!(entries.len(), 2);
    assert_eq!(entries[0].prefixed_name, "mcp__svr__read");
    assert_eq!(entries[0].description, "reads stuff");
    assert_eq!(entries[0].input_schema["type"], "object");
    assert_eq!(entries[1].prefixed_name, "mcp__svr__write");
    assert_eq!(entries[1].description, "");
    assert_eq!(entries[1].input_schema["type"], "object");
}

#[test]
fn parse_tools_list_drops_oversized_or_nameless_entries() {
    let oversized = "x".repeat(MCP_TOOL_NAME_MAX_LEN + 1);
    let result = json(&format!(
        r#"{{"tools": [{{"name": ""}}, {{"description": "no name"}}, {{"name": "{oversized}"}}, {{"name": "ok"}}]}}"#
    ));
    let entries = parse_tools_list_response("svr", &result);
    assert_eq!(entries.len(), 1);
    assert_eq!(entries[0].tool_name, "ok");
}

// ── format_tool_call_result ─────────────────────────────────────────────────

#[test]
fn format_tool_call_result_concats_text_parts() {
    let r = json(
        r#"{"content": [
            {"type": "text", "text": "hello"},
            {"type": "text", "text": "world"},
            {"type": "image", "data": "base64..."}
        ]}"#,
    );
    assert_eq!(format_tool_call_result(&r), "hello\nworld");
}

#[test]
fn format_tool_call_result_empty_content_uses_placeholder() {
    assert_eq!(format_tool_call_result(&json("{}")), "(no content)");
    assert_eq!(format_tool_call_result(&json(r#"{"content": []}"#)), "(no content)");
}

#[test]
fn format_tool_call_result_marks_is_error() {
    let r = json(r#"{"isError": true, "content": [{"type": "text", "text": "boom"}]}"#);
    assert_eq!(format_tool_call_result(&r), "[error] boom");
}

#[test]
fn format_tool_call_result_truncates_oversized_text() {
    let long = "a".repeat(MCP_TOOL_RESULT_MAX_BYTES + 100);
    let r = json(&format!(r#"{{"content": [{{"type": "text", "text": "{long}"}}]}}"#));
    let out = format_tool_call_result(&r);
    assert!(out.contains("[truncated:"));
    assert!(out.starts_with("aaaa"));
}

#[test]
fn tool_result_text_exact_truncation_note() {
    let long = "b".repeat(MCP_TOOL_RESULT_MAX_BYTES + 1);
    let out = format_tool_result_text(false, &vec![(Some("text".to_string()), Some(long))]);
    assert!(out.ends_with("\n\n[truncated: showing first 50000 of 50001 bytes]"));
    // Multi-byte text is cut at the last character boundary within the byte cap.
    let wide = "é".repeat(30_000);
    let out = format_tool_result_text(false, &vec![(Some("text".to_string()), Some(wide))]);
    assert_eq!(out, format!("{}\n\n[truncated: showing first 50000 of 60000 bytes]", "é".repeat(25_000)));
    let out = format_tool_result_text(true, &vec![(Some("image".to_string()), Some("x".to_string()))]);
    assert_eq!(out, "[error]");
}

// ── requests and dispatch ───────────────────────────────────────────────────

#[test]
fn call_result_maps_every_outcome() {
    let ok = call_result(CallOutcome::Received(InboundMessage::Response { id: 1, result: json(r#"{"a":2}"#) }));
    assert_eq!(ok.unwrap()["a"], 2);
    assert_eq!(
        call_result(CallOutcome::Received(InboundMessage::ResponseError { id: 1, message: "bad".to_string() })),
        Err("bad".to_string())
    );
    assert_eq!(
        call_result(CallOutcome::Received(InboundMessage::Notification)),
        Err("unexpected non-response message routed to caller".to_string())
    );
    assert_eq!(
        call_result(CallOutcome::Closed),
        Err("server connection closed before responding".to_string())
    );
    assert_eq!(call_result(CallOutcome::TimedOut(60)), Err("call timed out after 60s".to_string()));
}

#[test]
fn dispatch_messages_have_their_exact_text() {
    assert_eq!(
        mcp_dispatch_target("not_mcp_at_all"),
        Err("Error: malformed MCP tool name `not_mcp_at_all`".to_string())
    );
    assert_eq!(mcp_dispatch_target("mcp__svr__t"), Ok(("svr".to_string(), "t".to_string())));
    assert_eq!(mcp_not_connected_error("svr"), "Error: MCP server `svr` is not connected");
    assert_eq!(mcp_call_failed_error("svr", "t", "boom"), "Error: MCP `svr` tool `t` failed: boom");
    assert_eq!(handshake_error("initialize", "closed"), "initialize failed: closed");
}

// ── servers and registry ────────────────────────────────────────────────────

fn server(name: &str) -> McpServerConfig {
    McpServerConfig {
        name: name.to_string(),
        command: format!("/bin/{name}"),
        args: vec!["--stdio".to_string()],
        env: Default::default(),
    }
}

#[test]
fn find_server_config_by_name() {
    let servers = vec![server("a"), server("b")];
    assert_eq!(find_server_config(&servers, "b"), Ok(1));
    assert_eq!(
        find_server_config(&servers, "c"),
        Err("no MCP server named `c` in config".to_string())
    );
}

#[test]
fn server_status_reflects_client_and_error() {
    let s = server("a");
    let st = server_status(&s, Some(3), None);
    assert!(st.connected);
    assert_eq!(st.tool_count, 3);
    assert_eq!(st.args, vec!["--stdio".to_string()]);
    let st = server_status(&s, None, Some("spawn failed".to_string()));
    assert!(!st.connected);
    assert_eq!(st.tool_count, 0);
    assert_eq!(st.last_error.as_deref(), Some("spawn failed"));
}

#[test]
fn registry_insert_replace_remove() {
    let mut r: ServerRegistry<u32> = ServerRegistry::new();
    assert_eq!(r.insert_client("fake".to_string(), 1), None);
    assert!(r.is_connected("fake"));
    assert_eq!(r.insert_client("fake".to_string(), 2), Some(1));
    assert_eq!(r.get_client("fake"), Some(&2));
    assert_eq!(r.client_names(), vec!["fake".to_string()]);
    assert_eq!(r.remove_client("fake"), Some(2));
    assert!(!r.is_connected("fake"));
    assert_eq!(r.remove_client("never-existed"), None);
}

#[test]
fn registry_record_and_recall_last_error() {
    let mut r: ServerRegistry<u32> = ServerRegistry::new();
    assert!(r.last_error("svr").is_none());
    r.record_error("svr", "boom".to_string());
    assert_eq!(r.last_error("svr").as_deref(), Some("boom"));
    r.remove_client("svr");
    assert_eq!(r.last_error("svr").as_deref(), Some("boom"));
    r.insert_client("svr".to_string(), 9);
    assert!(r.last_error("svr").is_none());
}

#[test]
fn registry_lists_clients_in_connection_order() {
    let mut r: ServerRegistry<&'static str> = ServerRegistry::new();
    r.insert_client("b".to_string(), "B");
    r.insert_client("a".to_string(), "A");
    assert_eq!(r.client_names(), vec!["b".to_string(), "a".to_string()]);
    assert_eq!(r.clients(), vec![&"B", &"A"]);
}

#[test]
fn mcp_name_check_needs_server_and_tool() {
    assert!(!is_mcp_tool_name("mcp____tool"));
    assert!(!is_mcp_tool_name("mcp__svr__"));
    assert!(is_mcp_tool_name("mcp__s__t"));
}

#[test]
fn frames_become_messages() {
    assert!(matches!(inbound_from_frame(None), InboundMessage::Ignored));
    assert!(matches!(inbound_from_frame(Some((None, None, None))), InboundMessage::Notification));
    assert!(matches!(
        inbound_from_frame(Some((Some(3), Some(None), None))),
        InboundMessage::ResponseError { id: 3, ref message } if message == "unknown JSON-RPC error"
    ));
    assert!(matches!(
        inbound_from_frame(Some((Some(4), None, None))),
        InboundMessage::Response { id: 4, result: Value::Null }
    ));
}
