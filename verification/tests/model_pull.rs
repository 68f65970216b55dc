use wren::model_pull::pull_refused_from_field;
use wren::model_pull::{
    pull_end_event, pull_line_events, pull_model_name, pull_refused_message, pull_request_error_message,
    pull_stalled_message, pull_stream_error_message, PullEvent,
};

#[test]
fn pull_name_is_trimmed_and_must_not_be_blank() {
    assert_eq!(pull_model_name("  qwen3:8b \n"), Ok("qwen3:8b".to_string()));
    assert_eq!(
        pull_model_name("   "),
        Err("Model name is empty. Try something like qwen3:8b.".to_string())
    );
}

#[test]
fn pull_line_with_error_ends_the_pull() {
    let mut saw = false;
    let (events, done) = pull_line_events(
        Some("pulling".to_string()),
        None,
        None,
        None,
        Some("pull model manifest: file does not exist".to_string()),
        &mut saw,
    );
    assert!(done);
    assert_eq!(events.len(), 1);
    assert!(matches!(&events[0], PullEvent::Error(e) if e == "pull model manifest: file does not exist"));
    assert!(!saw);
}

#[test]
fn pull_line_emits_progress_then_status_and_records_success() {
    let mut saw = false;
    let (events, done) = pull_line_events(
        Some("success".to_string()),
        Some("sha256:abc".to_string()),
        Some(100),
        Some(40),
        None,
        &mut saw,
    );
    assert!(!done);
    assert_eq!(events.len(), 2);
    assert!(matches!(&events[0], PullEvent::Progress { digest, total: 100, completed: 40 } if digest == "sha256:abc"));
    assert!(matches!(&events[1], PullEvent::Status(s) if s == "success"));
    assert!(saw);
}

#[test]
fn pull_line_without_full_progress_triple_emits_status_only() {
    let mut saw = false;
    let (events, _) = pull_line_events(Some("verifying".to_string()), Some("d".to_string()), None, Some(1), None, &mut saw);
    assert_eq!(events.len(), 1);
    assert!(matches!(&events[0], PullEvent::Status(s) if s == "verifying"));
    assert!(!saw);
}

#[test]
fn pull_end_needs_a_success_marker() {
    assert!(matches!(pull_end_event(true), PullEvent::Done));
    assert!(matches!(
        pull_end_event(false),
        PullEvent::Error(m) if m == "Pull ended unexpectedly without a success marker."
    ));
}

#[test]
fn pull_failure_messages_have_their_exact_text() {
    assert_eq!(pull_request_error_message(true, true, "x"), "Could not reach Ollama. Is it running?");
    assert_eq!(pull_request_error_message(false, true, "x"), "The pull timed out.");
    assert_eq!(pull_request_error_message(false, false, "boom"), "Network error: boom");
    assert_eq!(
        pull_refused_message(404, r#"{"error":"model not found"}"#),
        "Ollama refused the pull: model not found"
    );
    assert_eq!(pull_refused_message(502, "gateway"), "Ollama refused the pull: HTTP 502");
    assert_eq!(pull_stalled_message(), "Pull stalled: no progress for 60s. Network or Ollama may be down.");
    assert_eq!(pull_stream_error_message("reset"), "Network error during pull: reset");
}

#[test]
fn refusal_message_from_the_error_field() {
    assert_eq!(pull_refused_from_field(404, Some("no such model".to_string())), "Ollama refused the pull: no such model");
    assert_eq!(pull_refused_from_field(500, None), "Ollama refused the pull: HTTP 500");
}

use wren::model_pull::{PullInput, PullLine, PullSession};

fn line(status: Option<&str>, progress: Option<(&str, u64, u64)>, error: Option<&str>) -> PullInput {
    PullInput::Line(PullLine {
        status: status.map(|s| s.to_string()),
        digest: progress.map(|p| p.0.to_string()),
        total: progress.map(|p| p.1),
        completed: progress.map(|p| p.2),
        error: error.map(|e| e.to_string()),
    })
}

#[test]
fn session_streams_progress_and_ends_with_done_after_success() {
    let mut s = PullSession::new();
    let mut all = Vec::new();
    all.extend(s.step(line(Some("pulling manifest"), None, None)));
    all.extend(s.step(line(Some("downloading"), Some(("sha256:aa", 10, 4)), None)));
    all.extend(s.step(line(Some("success"), None, None)));
    assert!(!s.finished);
    all.extend(s.step(PullInput::Ended));
    assert!(s.finished);
    assert_eq!(all.len(), 5);
    assert!(matches!(&all[0], PullEvent::Status(x) if x == "pulling manifest"));
    assert!(matches!(&all[1], PullEvent::Progress { digest, total: 10, completed: 4 } if digest == "sha256:aa"));
    assert!(matches!(&all[2], PullEvent::Status(x) if x == "downloading"));
    assert!(matches!(&all[3], PullEvent::Status(x) if x == "success"));
    assert!(matches!(&all[4], PullEvent::Done));
}

#[test]
fn session_clean_end_without_success_is_an_error() {
    let mut s = PullSession::new();
    assert_eq!(s.step(line(Some("downloading"), None, None)).len(), 1);
    let end = s.step(PullInput::Ended);
    assert_eq!(end.len(), 1);
    assert!(matches!(&end[0], PullEvent::Error(m) if m == "Pull ended unexpectedly without a success marker."));
}

#[test]
fn session_error_line_ends_and_nothing_follows() {
    let mut s = PullSession::new();
    s.step(line(Some("success"), None, None));
    let ev = s.step(line(Some("pulling"), None, Some("manifest unknown")));
    assert_eq!(ev.len(), 1);
    assert!(matches!(&ev[0], PullEvent::Error(m) if m == "manifest unknown"));
    assert!(s.finished);
    assert!(s.step(PullInput::Ended).is_empty());
    assert!(s.step(line(Some("success"), None, None)).is_empty());
    assert!(s.step(PullInput::Cancelled).is_empty());
}

#[test]
fn session_cancel_stall_and_failure_each_end_once() {
    let mut c = PullSession::new();
    let ev = c.step(PullInput::Cancelled);
    assert!(matches!(ev.as_slice(), [PullEvent::Cancelled]));
    assert!(c.step(PullInput::Stalled).is_empty());

    let mut st = PullSession::new();
    let ev = st.step(PullInput::Stalled);
    assert!(matches!(ev.as_slice(), [PullEvent::Error(m)] if m == "Pull stalled: no progress for 60s. Network or Ollama may be down."));

    let mut f = PullSession::new();
    let ev = f.step(PullInput::Failed("connection reset".to_string()));
    assert!(matches!(ev.as_slice(), [PullEvent::Error(m)] if m == "Network error during pull: connection reset"));
    assert!(f.finished);
}
