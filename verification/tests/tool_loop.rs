use wren::tool_loop::decode_tool_reply;
use wren::chat::StreamChunk;
use wren::tool_loop::{tool_loop_step, ToolCallInfo, ToolLoopAction, ToolLoopEvent, ToolLoopState};

fn call(name: &str, args: &str) -> Option<ToolCallInfo> {
    Some(ToolCallInfo { name: name.to_string(), arguments_json: args.to_string() })
}

#[test]
fn reply_without_calls_finishes_with_the_answer() {
    let mut s = ToolLoopState::new();
    assert!(matches!(tool_loop_step(&mut s, ToolLoopEvent::Next), ToolLoopAction::Request));
    match tool_loop_step(&mut s, ToolLoopEvent::Reply { content: "hi".to_string(), calls: vec![] }) {
        ToolLoopAction::Finish { chunks, content } => {
            assert_eq!(content, "hi");
            assert_eq!(chunks.len(), 2);
            assert!(matches!(&chunks[0], StreamChunk::Token(t) if t == "hi"));
            assert!(matches!(chunks[1], StreamChunk::Done));
        }
        _ => panic!("expected Finish"),
    }
}

#[test]
fn destructive_call_asks_before_dispatch_and_denial_is_appended() {
    let mut s = ToolLoopState::new();
    tool_loop_step(&mut s, ToolLoopEvent::Next);
    let calls = vec![None, call("write_file", "{}"), call("read_file", "{\"path\":\"/x\"}")];
    assert!(matches!(
        tool_loop_step(&mut s, ToolLoopEvent::Reply { content: String::new(), calls }),
        ToolLoopAction::AppendAssistantTurn
    ));
    match tool_loop_step(&mut s, ToolLoopEvent::Next) {
        ToolLoopAction::AskApproval { index, name, .. } => {
            assert_eq!(index, 1);
            assert_eq!(name, "write_file");
        }
        _ => panic!("expected AskApproval"),
    }
    match tool_loop_step(&mut s, ToolLoopEvent::Approval(false)) {
        ToolLoopAction::AppendToolMessage { name, content, lines } => {
            assert_eq!(name, "write_file");
            assert!(content.starts_with("Error: User denied permission to run `write_file`."));
            assert_eq!(lines, vec!["[tool] write_file denied by user\n".to_string()]);
        }
        _ => panic!("expected a denial"),
    }
    match tool_loop_step(&mut s, ToolLoopEvent::Next) {
        ToolLoopAction::Dispatch { index, name, line } => {
            assert_eq!(index, 2);
            assert_eq!(name, "read_file");
            assert_eq!(line, "[tool] read_file({\"path\":\"/x\"})\n");
        }
        _ => panic!("expected Dispatch"),
    }
    match tool_loop_step(&mut s, ToolLoopEvent::ToolResult("Error: nope\nmore".to_string())) {
        ToolLoopAction::AppendToolMessage { content, lines, .. } => {
            assert_eq!(content, "Error: nope\nmore");
            assert_eq!(lines, vec!["[tool] read_file -> Error: nope\n".to_string()]);
        }
        _ => panic!("expected the result"),
    }
    assert!(matches!(tool_loop_step(&mut s, ToolLoopEvent::Next), ToolLoopAction::Request));
}

#[test]
fn approval_timeout_counts_as_denial_and_cancel_ends() {
    let mut s = ToolLoopState::new();
    tool_loop_step(&mut s, ToolLoopEvent::Next);
    tool_loop_step(&mut s, ToolLoopEvent::Reply { content: String::new(), calls: vec![call("run_shell", "{}")] });
    tool_loop_step(&mut s, ToolLoopEvent::Next);
    match tool_loop_step(&mut s, ToolLoopEvent::ApprovalTimedOut) {
        ToolLoopAction::AppendToolMessage { lines, .. } => {
            assert_eq!(lines.len(), 2);
            assert_eq!(lines[0], "[tool] run_shell approval timed out after 300s\n");
        }
        _ => panic!("expected a denial"),
    }
    assert!(matches!(tool_loop_step(&mut s, ToolLoopEvent::Cancelled), ToolLoopAction::Cancelled));
    assert!(matches!(tool_loop_step(&mut s, ToolLoopEvent::Next), ToolLoopAction::Wait));
}

#[test]
fn loop_gives_up_after_ten_rounds() {
    let mut s = ToolLoopState::new();
    for _ in 0..10 {
        assert!(matches!(tool_loop_step(&mut s, ToolLoopEvent::Next), ToolLoopAction::Request));
        tool_loop_step(&mut s, ToolLoopEvent::Reply { content: String::new(), calls: vec![None] });
    }
    match tool_loop_step(&mut s, ToolLoopEvent::Next) {
        ToolLoopAction::Fail(e) => assert!(e.message.starts_with("Tool loop exceeded\nReached the 10-round")),
        _ => panic!("expected Fail"),
    }
}

#[test]
fn tool_runs_do_not_spend_rounds() {
    let mut s = ToolLoopState::new();
    let mut requests = 0;
    loop {
        match tool_loop_step(&mut s, ToolLoopEvent::Next) {
            ToolLoopAction::Request => requests += 1,
            ToolLoopAction::Fail(e) => {
                assert!(e.message.starts_with("Tool loop exceeded\nReached the 10-round"));
                break;
            }
            _ => panic!("expected Request or Fail"),
        }
        tool_loop_step(&mut s, ToolLoopEvent::Reply { content: String::new(), calls: vec![call("nope", "{}")] });
        match tool_loop_step(&mut s, ToolLoopEvent::Next) {
            ToolLoopAction::Dispatch { line, .. } => assert_eq!(line, "[tool] nope({})\n"),
            _ => panic!("expected Dispatch"),
        }
        match tool_loop_step(&mut s, ToolLoopEvent::ToolResult("Error: Unknown tool: nope".to_string())) {
            ToolLoopAction::AppendToolMessage { lines, .. } => {
                assert_eq!(lines, vec!["[tool] nope -> Error: Unknown tool: nope\n".to_string()])
            }
            _ => panic!("expected the result"),
        }
    }
    assert_eq!(requests, 10);
}

#[test]
fn tool_replies_are_decoded() {
    let r = decode_tool_reply(r#"{"message":{"content":"","tool_calls":[{"function":{"name":"nope","arguments":{}}},{"x":1},{"function":{}}]}}"#).ok().unwrap();
    assert_eq!(r.content, "");
    assert_eq!(r.raw_calls.len(), 3);
    let c0 = r.calls[0].as_ref().unwrap();
    assert_eq!((c0.name.as_str(), c0.arguments_json.as_str()), ("nope", "{}"));
    assert!(r.calls[1].is_none());
    let c2 = r.calls[2].as_ref().unwrap();
    assert_eq!((c2.name.as_str(), c2.arguments_json.as_str()), ("", "null"));
    let e = decode_tool_reply("not json").err().unwrap();
    assert_eq!(e.message, "Something went wrong\nMalformed response from Ollama.");
    let e = decode_tool_reply("{}").err().unwrap();
    assert_eq!(e.message, "Something went wrong\nResponse missing message field.");
    let r = decode_tool_reply(r#"{"message":{"content":"hi"}}"#).ok().unwrap();
    assert_eq!(r.content, "hi");
    assert!(r.calls.is_empty());
}
