//! Decisions of the streaming model pull: what each progress line of
//! Ollama's `/api/pull` turns into, and the messages for failures.
use vstd::prelude::*;
use crate::text::{chars_of, decimal, decimal_exec, eq_str, push_chars, push_str, string_of, trim, trim_exec};
use crate::chat::{json_string_field, json_string_field_exec};

verus! {

broadcast use vstd::string::group_string_axioms;

/// Event types emitted to the frontend during a pull.
#[derive(Clone, Debug)]
pub enum PullEvent {
    /// Free-form status string from Ollama.
    Status(String),
    /// Byte-level progress for a single layer (digest).
    Progress { digest: String, total: u64, completed: u64 },
    /// Pull completed successfully.
    Done,
    /// User cancelled the pull.
    Cancelled,
    /// Pull failed; carries a user-facing message.
    Error(String),
}

/// An event that ends the pull.
pub open spec fn is_terminal(e: PullEvent) -> bool {
    e is Done || e is Cancelled || e is Error
}

/// A pull event with its strings taken by their characters.
pub enum PullEventView {
    Status(Seq<char>),
    Progress { digest: Seq<char>, total: u64, completed: u64 },
    Done,
    Cancelled,
    Error(Seq<char>),
}

/// The view of one event.
pub open spec fn event_view(e: PullEvent) -> PullEventView {
    match e {
        PullEvent::Status(s) => PullEventView::Status(s@),
        PullEvent::Progress { digest, total, completed } => PullEventView::Progress {
            digest: digest@,
            total,
            completed,
        },
        PullEvent::Done => PullEventView::Done,
        PullEvent::Cancelled => PullEventView::Cancelled,
        PullEvent::Error(m) => PullEventView::Error(m@),
    }
}

/// The views of a sequence of events.
pub open spec fn events_view(s: Seq<PullEvent>) -> Seq<PullEventView> {
    s.map_values(|e: PullEvent| event_view(e))
}

/// A viewed event that ends the pull.
pub open spec fn is_terminal_view(e: PullEventView) -> bool {
    e is Done || e is Cancelled || e is Error
}

/// Whether a line's status is `"success"`.
pub open spec fn is_success_status(status: Option<String>) -> bool {
    status matches Some(s) && s@ == "success"@
}

/// The `Progress` event of a line that carries the whole (digest, total,
/// completed) triple; nothing otherwise.
pub open spec fn progress_view(digest: Option<String>, total: Option<u64>, completed: Option<u64>) -> Seq<PullEventView> {
    if digest is Some && total is Some && completed is Some {
        seq![PullEventView::Progress { digest: digest->0@, total: total->0, completed: completed->0 }]
    } else {
        Seq::empty()
    }
}

/// The events of one decoded `/api/pull` line: its error alone when it
/// carries one, else its progress and then its status.
pub open spec fn line_events_view(
    status: Option<String>,
    digest: Option<String>,
    total: Option<u64>,
    completed: Option<u64>,
    error: Option<String>,
) -> Seq<PullEventView> {
    match error {
        Some(e) => seq![PullEventView::Error(e@)],
        None => progress_view(digest, total, completed) + match status {
            Some(s) => seq![PullEventView::Status(s@)],
            None => Seq::<PullEventView>::empty(),
        },
    }
}

/// The name to pull, trimmed; `Err` with the user-facing message when it
/// is blank.
pub fn pull_model_name(name: &str) -> (r: Result<String, String>)
    ensures
        r matches Ok(n) ==> n@ == trim(name@) && n@.len() > 0,
        r matches Err(e) ==> trim(name@).len() == 0 && e@ == "Model name is empty. Try something like qwen3:8b."@,
{
    let t = trim_exec(&chars_of(name));
    if t.len() == 0 {
        Err(crate::text::owned("Model name is empty. Try something like qwen3:8b."))
    } else {
        Ok(string_of(&t))
    }
}

/// The events one decoded `/api/pull` line produces, and whether the pull
/// is over. An `error` field ends the pull with that error; otherwise a
/// complete (digest, total, completed) triple yields a `Progress` event
/// and a status yields a `Status` event, in that order. `saw_success`
/// records a `"success"` status.
pub fn pull_line_events(
    status: Option<String>,
    digest: Option<String>,
    total: Option<u64>,
    completed: Option<u64>,
    error: Option<String>,
    saw_success: &mut bool,
) -> (r: (Vec<PullEvent>, bool))
    ensures
        error matches Some(e) ==> r.0@ == seq![PullEvent::Error(e)] && r.1 && *final(saw_success)
            == *old(saw_success),
        error is None ==> {
            let prog = digest is Some && total is Some && completed is Some;
            &&& !r.1
            &&& r.0@.len() == (if prog { 1int } else { 0 }) + (if status is Some { 1int } else { 0 })
            &&& prog ==> r.0@[0] == PullEvent::Progress {
                digest: digest->0,
                total: total->0,
                completed: completed->0,
            }
            &&& status matches Some(s) ==> r.0@.last() == PullEvent::Status(s)
            &&& *final(saw_success) == (*old(saw_success) || (status matches Some(s) && s@ == "success"@))
        },
        r.1 <==> (r.0@.len() > 0 && is_terminal(r.0@.last())),
        forall|i: int| 0 <= i < r.0@.len() - 1 ==> !is_terminal(#[trigger] r.0@[i]),
        events_view(r.0@) == line_events_view(status, digest, total, completed, error),
        r.1 == error is Some,
        *final(saw_success) == (*old(saw_success) || (error is None && is_success_status(status))),
{
    let ghost (st, dg, tt, cp, er) = (status, digest, total, completed, error);
    let mut events: Vec<PullEvent> = Vec::new();
    if let Some(e) = error {
        events.push(PullEvent::Error(e));
        assert(events_view(events@) =~= line_events_view(st, dg, tt, cp, er));
        return (events, true);
    }
    match (digest, total, completed) {
        (Some(d), Some(t), Some(c)) => {
            events.push(PullEvent::Progress { digest: d, total: t, completed: c });
        },
        _ => {},
    }
    assert(events_view(events@) =~= progress_view(dg, tt, cp));
    if let Some(s) = status {
        if eq_str(&chars_of(s.as_str()), "success") {
            *saw_success = true;
        }
        events.push(PullEvent::Status(s));
    }
    assert(events_view(events@) =~= line_events_view(st, dg, tt, cp, er));
    (events, false)
}

/// The event that closes a stream that ended cleanly: `Done` after a
/// success status, an error otherwise.
pub fn pull_end_event(saw_success: bool) -> (e: PullEvent)
    ensures
        saw_success ==> e == PullEvent::Done,
        !saw_success ==> (e matches PullEvent::Error(m) && m@ == "Pull ended unexpectedly without a success marker."@),
        is_terminal(e),
{
    if saw_success {
        PullEvent::Done
    } else {
        PullEvent::Error(crate::text::owned("Pull ended unexpectedly without a success marker."))
    }
}

/// The message for a pull request that failed before any response.
pub fn pull_request_error_message(is_connect: bool, is_timeout: bool, detail: &str) -> (m: String)
    ensures
        is_connect ==> m@ == "Could not reach Ollama. Is it running?"@,
        !is_connect && is_timeout ==> m@ == "The pull timed out."@,
        !is_connect && !is_timeout ==> m@ == "Network error: "@ + detail@,
{
    if is_connect {
        crate::text::owned("Could not reach Ollama. Is it running?")
    } else if is_timeout {
        crate::text::owned("The pull timed out.")
    } else {
        let mut out: Vec<char> = Vec::new();
        push_str(&mut out, "Network error: ");
        push_str(&mut out, detail);
        string_of(&out)
    }
}

/// The message for a pull request that failed with the `reqwest` error
/// `e`, by its connect and timeout flags and its text.
pub fn pull_request_error(e: &reqwest::Error) -> (m: String)
    ensures
        crate::chat::reqwest_error_connect(*e) ==> m@ == "Could not reach Ollama. Is it running?"@,
        !crate::chat::reqwest_error_connect(*e) && crate::chat::reqwest_error_timeout(*e) ==> m@ == "The pull timed out."@,
        !crate::chat::reqwest_error_connect(*e) && !crate::chat::reqwest_error_timeout(*e) ==> m@ == "Network error: "@
            + crate::tools::reqwest_error_display(*e),
{
    let c = crate::chat::reqwest_error_is_connect(e);
    let t = crate::chat::reqwest_error_is_timeout(e);
    let d = crate::tools::reqwest_error_text(e);
    pull_request_error_message(c, t, d.as_str())
}

/// The message for a pull Ollama refused with a non-success status: its
/// own `error` string when the body carries one, the bare status
/// otherwise.
pub fn pull_refused_message(status: u16, body: &str) -> (m: String)
    ensures
        m@ == "Ollama refused the pull: "@ + match json_string_field(body@, "error"@) {
            Some(e) => e,
            None => "HTTP "@ + decimal(status as nat),
        },
{
    pull_refused_from_field(status, json_string_field_exec(body, "error"))
}

/// The refusal message once the body's `error` field has been read.
pub fn pull_refused_from_field(status: u16, field: Option<String>) -> (m: String)
    ensures
        m@ == "Ollama refused the pull: "@ + match field {
            Some(e) => e@,
            None => "HTTP "@ + decimal(status as nat),
        },
{
    let mut out: Vec<char> = Vec::new();
    push_str(&mut out, "Ollama refused the pull: ");
    match field {
        Some(e) => push_str(&mut out, e.as_str()),
        None => {
            push_str(&mut out, "HTTP ");
            let d = decimal_exec(status as u64);
            push_chars(&mut out, &d);
        },
    }
    string_of(&out)
}

/// Per-chunk no-progress timeout of a pull, in seconds.
pub const PULL_CHUNK_TIMEOUT_SECS: u64 = 60;

/// The message for a pull whose stream went silent.
pub fn pull_stalled_message() -> (m: String)
    ensures
        m@ == "Pull stalled: no progress for "@ + decimal(PULL_CHUNK_TIMEOUT_SECS as nat)
            + "s. Network or Ollama may be down."@,
{
    let mut out: Vec<char> = Vec::new();
    push_str(&mut out, "Pull stalled: no progress for ");
    let d = decimal_exec(PULL_CHUNK_TIMEOUT_SECS);
    push_chars(&mut out, &d);
    push_str(&mut out, "s. Network or Ollama may be down.");
    string_of(&out)
}

/// The message for a pull whose body stream failed.
pub fn pull_stream_error_message(detail: &str) -> (m: String)
    ensures
        m@ == "Network error during pull: "@ + detail@,
{
    let mut out: Vec<char> = Vec::new();
    push_str(&mut out, "Network error during pull: ");
    push_str(&mut out, detail);
    string_of(&out)
}

// ─── The pull session ─────────────────────────────────────────────────────

/// One decoded `/api/pull` line: its optional status, layer digest, byte
/// counts and error.
pub struct PullLine {
    pub status: Option<String>,
    pub digest: Option<String>,
    pub total: Option<u64>,
    pub completed: Option<u64>,
    pub error: Option<String>,
}

/// What the pull's body stream delivered next.
pub enum PullInput {
    /// A decoded progress line.
    Line(PullLine),
    /// The body ended cleanly.
    Ended,
    /// The user cancelled the pull.
    Cancelled,
    /// No chunk arrived within `PULL_CHUNK_TIMEOUT_SECS`.
    Stalled,
    /// The body stream failed with this text.
    Failed(String),
}

/// Where a streaming pull stands: whether a `"success"` status has been
/// seen, and whether the pull has ended (after which nothing more is
/// emitted).
pub struct PullSession {
    pub saw_success: bool,
    pub finished: bool,
}

/// A session before the first line.
pub open spec fn fresh_session() -> PullSession {
    PullSession { saw_success: false, finished: false }
}

/// A line that reports `"success"` without an error.
pub open spec fn is_success_line(i: PullInput) -> bool {
    i matches PullInput::Line(l) && l.error is None && is_success_status(l.status)
}

/// A line without an error.
pub open spec fn is_plain_line(i: PullInput) -> bool {
    i matches PullInput::Line(l) && l.error is None
}

/// The session after `input`, and the events it emits. A finished session
/// ignores everything; a line emits its events and ends the session when
/// it carries an error; every other input ends the session with one event:
/// `Done` or the missing-success error for a clean end, `Cancelled`, the
/// stall message, or the stream failure.
pub open spec fn pull_step_spec(s: PullSession, input: PullInput) -> (PullSession, Seq<PullEventView>) {
    if s.finished {
        (s, Seq::empty())
    } else {
        let done = PullSession { saw_success: s.saw_success, finished: true };
        match input {
            PullInput::Line(l) => (
                PullSession {
                    saw_success: s.saw_success || (l.error is None && is_success_status(l.status)),
                    finished: l.error is Some,
                },
                line_events_view(l.status, l.digest, l.total, l.completed, l.error),
            ),
            PullInput::Ended => (
                done,
                seq![
                    if s.saw_success {
                        PullEventView::Done
                    } else {
                        PullEventView::Error("Pull ended unexpectedly without a success marker."@)
                    },
                ],
            ),
            PullInput::Cancelled => (done, seq![PullEventView::Cancelled]),
            PullInput::Stalled => (
                done,
                seq![
                    PullEventView::Error(
                        "Pull stalled: no progress for "@ + decimal(PULL_CHUNK_TIMEOUT_SECS as nat)
                            + "s. Network or Ollama may be down."@,
                    ),
                ],
            ),
            PullInput::Failed(d) => (done, seq![PullEventView::Error("Network error during pull: "@ + d@)]),
        }
    }
}

/// The session and all the events after feeding `inputs` in order.
pub open spec fn pull_run(s: PullSession, inputs: Seq<PullInput>) -> (PullSession, Seq<PullEventView>)
    decreases inputs.len(),
{
    if inputs.len() == 0 {
        (s, Seq::empty())
    } else {
        let before = pull_run(s, inputs.drop_last());
        let step = pull_step_spec(before.0, inputs.last());
        (step.0, before.1 + step.1)
    }
}

impl PullSession {
    /// A session before the first line.
    pub fn new() -> (s: Self)
        ensures
            s == fresh_session(),
    {
        PullSession { saw_success: false, finished: false }
    }

    /// Feeds the next input and returns the events to emit.
    pub fn step(&mut self, input: PullInput) -> (events: Vec<PullEvent>)
        ensures
            (*final(self), events_view(events@)) == pull_step_spec(*old(self), input),
    {
        let ghost inp = input;
        let mut events: Vec<PullEvent> = Vec::new();
        if self.finished {
            assert(events_view(events@) =~= Seq::<PullEventView>::empty());
            return events;
        }
        match input {
            PullInput::Line(l) => {
                let (ev, fin) = pull_line_events(l.status, l.digest, l.total, l.completed, l.error, &mut self.saw_success);
                self.finished = fin;
                return ev;
            },
            PullInput::Ended => {
                events.push(pull_end_event(self.saw_success));
            },
            PullInput::Cancelled => {
                events.push(PullEvent::Cancelled);
            },
            PullInput::Stalled => {
                events.push(PullEvent::Error(pull_stalled_message()));
            },
            PullInput::Failed(d) => {
                events.push(PullEvent::Error(pull_stream_error_message(d.as_str())));
            },
        }
        self.finished = true;
        assert(events_view(events@) =~= pull_step_spec(*old(self), inp).1);
        events
    }
}

/// Over any inputs fed to a fresh session, at most one terminal event is
/// emitted and it is the last one; the session is finished exactly when
/// the last event is terminal; any input other than a line finishes it;
/// and `Done` comes only after a line reporting `"success"`.
pub proof fn law_pull_single_terminal(inputs: Seq<PullInput>)
    ensures
        ({
            let r = pull_run(fresh_session(), inputs);
            &&& forall|i: int| 0 <= i < r.1.len() - 1 ==> !is_terminal_view(#[trigger] r.1[i])
            &&& r.0.finished <==> (r.1.len() > 0 && is_terminal_view(r.1.last()))
            &&& (inputs.len() > 0 && !(inputs.last() is Line)) ==> r.0.finished
            &&& r.0.saw_success ==> exists|j: int| 0 <= j < inputs.len() && is_success_line(#[trigger] inputs[j])
            &&& (r.1.len() > 0 && r.1.last() is Done) ==> exists|j: int|
                0 <= j < inputs.len() && is_success_line(#[trigger] inputs[j])
        }),
    decreases inputs.len(),
{
    if inputs.len() > 0 {
        let prev = inputs.drop_last();
        law_pull_single_terminal(prev);
        let b = pull_run(fresh_session(), prev);
        let st = pull_step_spec(b.0, inputs.last());
        let r = pull_run(fresh_session(), inputs);
        assert(r == (st.0, b.1 + st.1));
        assert forall|j: int| 0 <= j < prev.len() implies inputs[j] == #[trigger] prev[j] by {}
        if b.0.saw_success {
            let j = choose|j: int| 0 <= j < prev.len() && is_success_line(#[trigger] prev[j]);
            assert(inputs[j] == prev[j]);
        }
        if !b.0.finished {
            assert forall|i: int| 0 <= i < b.1.len() implies !is_terminal_view(#[trigger] b.1[i]) by {}
            match inputs.last() {
                PullInput::Line(l) => {
                    if l.error is None && is_success_status(l.status) {
                        assert(is_success_line(inputs[inputs.len() - 1]));
                    }
                    if l.error is None {
                        let p = progress_view(l.digest, l.total, l.completed);
                        assert forall|i: int| 0 <= i < st.1.len() implies !is_terminal_view(#[trigger] st.1[i]) by {
                            if i < p.len() {
                                assert(st.1[i] == p[i]);
                            }
                        }
                    }
                },
                _ => {},
            }
        }
        assert forall|i: int| 0 <= i < r.1.len() - 1 implies !is_terminal_view(#[trigger] r.1[i]) by {
            if i < b.1.len() {
                assert(r.1[i] == b.1[i]);
            } else {
                assert(r.1[i] == st.1[i - b.1.len()]);
            }
        }
        if r.1.len() > 0 && r.1.last() is Done {
            if st.1.len() == 0 {
                assert(r.1 =~= b.1);
            }
        }
    }
}

/// Whether `s` has a line reporting `"success"`.
pub open spec fn has_success_line(s: Seq<PullInput>) -> bool {
    exists|j: int| 0 <= j < s.len() && is_success_line(#[trigger] s[j])
}

/// Lines without errors leave a fresh session unfinished, having seen
/// success exactly when one of them reported it.
pub proof fn lemma_plain_lines_run(lines: Seq<PullInput>)
    requires
        forall|j: int| 0 <= j < lines.len() ==> is_plain_line(#[trigger] lines[j]),
    ensures
        pull_run(fresh_session(), lines).0 == (PullSession {
            saw_success: has_success_line(lines),
            finished: false,
        }),
    decreases lines.len(),
{
    if lines.len() > 0 {
        let prev = lines.drop_last();
        assert forall|j: int| 0 <= j < prev.len() implies is_plain_line(#[trigger] prev[j]) by {
            assert(prev[j] == lines[j]);
        }
        lemma_plain_lines_run(prev);
        if has_success_line(prev) {
            let j = choose|j: int| 0 <= j < prev.len() && is_success_line(#[trigger] prev[j]);
            assert(lines[j] == prev[j]);
        }
        if has_success_line(lines) {
            let j = choose|j: int| 0 <= j < lines.len() && is_success_line(#[trigger] lines[j]);
            if j < prev.len() {
                assert(prev[j] == lines[j]);
            }
        }
        assert(is_plain_line(lines[lines.len() - 1]));
    }
}

/// A stream of error-free lines that ends cleanly closes with `Done` when
/// one of the lines reported `"success"`, and with the missing-success
/// error otherwise.
pub proof fn law_pull_clean_end(lines: Seq<PullInput>)
    requires
        forall|j: int| 0 <= j < lines.len() ==> is_plain_line(#[trigger] lines[j]),
    ensures
        ({
            let r = pull_run(fresh_session(), lines.push(PullInput::Ended));
            &&& r.0.finished
            &&& r.1.last() == (if has_success_line(lines) {
                PullEventView::Done
            } else {
                PullEventView::Error("Pull ended unexpectedly without a success marker."@)
            })
        }),
{
    lemma_plain_lines_run(lines);
    assert(lines.push(PullInput::Ended).drop_last() =~= lines);
}

/// A line carrying an error after error-free lines ends the pull with that
/// error, so no `Done` can follow.
pub proof fn law_pull_error_line_ends(lines: Seq<PullInput>, bad: PullLine)
    requires
        forall|j: int| 0 <= j < lines.len() ==> is_plain_line(#[trigger] lines[j]),
        bad.error is Some,
    ensures
        ({
            let r = pull_run(fresh_session(), lines.push(PullInput::Line(bad)));
            &&& r.0.finished
            &&& r.1.last() == PullEventView::Error(bad.error->0@)
        }),
{
    lemma_plain_lines_run(lines);
    assert(lines.push(PullInput::Line(bad)).drop_last() =~= lines);
}

} // verus!
