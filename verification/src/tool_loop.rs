//! The decisions of the tool-calling loop: when to ask the model, when its
//! reply is the final answer, which calls need the user's approval, what
//! is appended after a denial, a timeout or a tool run, and when the loop
//! gives up. The caller sends the requests, waits for the user and runs
//! the tools, and reports back with events.
use vstd::prelude::*;
use crate::json::{get_array, get_str, json_from_str, json_get, json_member, json_parse, json_text, json_to_string, member_array, member_str};
use crate::chat::{
    approval_timeout_line, final_answer_chunks, first_line, tool_call_line, tool_denial_content, tool_denied_line,
    tool_failure_line, tool_loop_exceeded_error, OllamaError, OllamaErrorKind, StreamChunk,
    APPROVAL_TIMEOUT_SECS, TOOL_LOOP_MAX_ROUNDS,
};
use crate::text::{decimal, owned, starts_with};
use crate::chat::{malformed_response_error, missing_message_error};
use crate::tools::{is_destructive, is_destructive_spec};

verus! {

/// One tool call of a model reply: the tool's name and its arguments as
/// JSON text.
#[derive(Clone, Debug)]
pub struct ToolCallInfo {
    pub name: String,
    pub arguments_json: String,
}

/// Where the loop stands.
#[derive(Clone, Copy, Debug, PartialEq, Eq, Structural)]
pub enum ToolLoopPhase {
    /// Nothing asked yet.
    Start,
    /// A request to the model is out.
    AwaitReply,
    /// Working through the calls of the last reply.
    Calls,
    /// Waiting for the user's answer on the current call.
    AwaitApproval,
    /// The current call's tool is running.
    AwaitResult,
    /// The loop has ended.
    Done,
}

/// What the caller reports to the loop.
pub enum ToolLoopEvent {
    /// Ready for the next step (at the start, after appending the
    /// assistant turn or a tool message).
    Next,
    /// The model replied with `content` and these tool calls (`None` for a
    /// call without a `function`).
    Reply { content: String, calls: Vec<Option<ToolCallInfo>> },
    /// The user answered the approval request (a dropped answer channel
    /// counts as a denial).
    Approval(bool),
    /// The approval request went unanswered for `APPROVAL_TIMEOUT_SECS`.
    ApprovalTimedOut,
    /// The dispatched tool returned this text.
    ToolResult(String),
    /// The generation was cancelled.
    Cancelled,
}

/// What the loop asks the caller to do.
pub enum ToolLoopAction {
    /// Send the conversation to the model once more.
    Request,
    /// Emit `chunks` and end the loop with `content`.
    Finish { chunks: Vec<StreamChunk>, content: String },
    /// Append the assistant turn with its tool calls to the conversation.
    AppendAssistantTurn,
    /// Ask the user to approve call `index`.
    AskApproval { index: usize, name: String, arguments_json: String },
    /// Emit `line` as a thinking token and run the tool of call `index`.
    Dispatch { index: usize, name: String, line: String },
    /// Emit `lines` as thinking tokens and append a `tool` message.
    AppendToolMessage { name: String, content: String, lines: Vec<String> },
    /// Emit the error and end the loop.
    Fail(OllamaError),
    /// Emit `Cancelled` and end the loop.
    Cancelled,
    /// The event does not fit where the loop stands; nothing to do.
    Wait,
}

/// The state of one tool loop.
pub struct ToolLoopState {
    requests: usize,
    phase: ToolLoopPhase,
    calls: Vec<Option<ToolCallInfo>>,
    next: usize,
}

/// The name and arguments of call `i`, when there is one.
pub open spec fn call_at(calls: Seq<Option<ToolCallInfo>>, i: int) -> Option<(Seq<char>, Seq<char>)> {
    if 0 <= i < calls.len() {
        match calls[i] {
            Some(c) => Some((c.name@, c.arguments_json@)),
            None => None,
        }
    } else {
        None
    }
}

/// The first call at or after `from` that has a function, or the number
/// of calls when there is none.
pub open spec fn next_call(calls: Seq<Option<ToolCallInfo>>, from: int) -> int
    decreases calls.len() - from,
{
    if from >= calls.len() {
        calls.len() as int
    } else if calls[from] is Some {
        from
    } else {
        next_call(calls, from + 1)
    }
}

/// `next_call` finds a call with a function at or after `from`, or runs
/// to the end.
pub proof fn lemma_next_call(calls: Seq<Option<ToolCallInfo>>, from: int)
    requires
        0 <= from,
    ensures
        next_call(calls, from) >= from || next_call(calls, from) == calls.len(),
        next_call(calls, from) <= calls.len() || from > calls.len(),
        next_call(calls, from) < calls.len() ==> calls[next_call(calls, from)] is Some,
    decreases calls.len() - from,
{
    if from < calls.len() && calls[from] is None {
        lemma_next_call(calls, from + 1);
    }
}

impl ToolLoopState {
    /// At most `TOOL_LOOP_MAX_ROUNDS` requests are ever sent.
    #[verifier::type_invariant]
    spec fn within_cap(self) -> bool {
        self.requests <= TOOL_LOOP_MAX_ROUNDS
    }

    /// Where the loop stands.
    pub closed spec fn phase(&self) -> ToolLoopPhase {
        self.phase
    }

    /// The requests sent to the model so far.
    pub closed spec fn requests(&self) -> nat {
        self.requests as nat
    }

    /// The calls of the last reply.
    pub closed spec fn calls(&self) -> Seq<Option<ToolCallInfo>> {
        self.calls@
    }

    /// The call being handled, or the next one to look at.
    pub closed spec fn next(&self) -> nat {
        self.next as nat
    }

    /// A loop that has asked nothing yet.
    pub fn new() -> (s: Self)
        ensures
            s.phase() == ToolLoopPhase::Start,
            s.requests() == 0,
            s.calls().len() == 0,
            s.next() == 0,
    {
        ToolLoopState { requests: 0, phase: ToolLoopPhase::Start, calls: Vec::new(), next: 0 }
    }
}

/// The call line, denial, denial line and timeout line of a tool.
pub open spec fn call_line_spec(name: Seq<char>, args: Seq<char>) -> Seq<char> {
    "[tool] "@ + name + "("@ + args + ")\n"@
}

/// The `tool` message content after a denial.
pub open spec fn denial_spec(name: Seq<char>) -> Seq<char> {
    "Error: User denied permission to run `"@ + name
        + "`. Do not retry; explain to the user that you cannot perform this action and suggest an alternative."@
}

/// The thinking line after a denial.
pub open spec fn denied_line_spec(name: Seq<char>) -> Seq<char> {
    "[tool] "@ + name + " denied by user\n"@
}

/// The thinking line after an approval timeout.
pub open spec fn timeout_line_spec(name: Seq<char>) -> Seq<char> {
    "[tool] "@ + name + " approval timed out after "@ + decimal(APPROVAL_TIMEOUT_SECS as nat) + "s\n"@
}

/// `chunks` end the loop on the final answer `content`: the answer as one
/// token when it is not empty, then `Done`.
pub open spec fn final_chunks(chunks: Seq<StreamChunk>, content: Seq<char>) -> bool {
    &&& content.len() > 0 ==> chunks.len() == 2 && (chunks[0] matches StreamChunk::Token(t) && t@ == content)
        && chunks[1] == StreamChunk::Done
    &&& content.len() == 0 ==> chunks == seq![StreamChunk::Done]
}

/// `e` is the error of a loop that ran out of rounds.
pub open spec fn is_exceeded_error(e: OllamaError) -> bool {
    e.kind == OllamaErrorKind::Other && e.message@ == "Tool loop exceeded\nReached the "@ + decimal(
        TOOL_LOOP_MAX_ROUNDS as nat,
    ) + "-round safety cap before the model produced a final answer."@
}

/// Starts a round if the cap allows: a request, or the loop gives up.
fn start_round(state: &mut ToolLoopState) -> (action: ToolLoopAction)
    ensures
        old(state).requests() < TOOL_LOOP_MAX_ROUNDS ==> action is Request && final(state).requests()
            == old(state).requests() + 1 && final(state).phase() == ToolLoopPhase::AwaitReply,
        old(state).requests() >= TOOL_LOOP_MAX_ROUNDS ==> (action matches ToolLoopAction::Fail(e)
            && is_exceeded_error(e)) && final(state).requests() == old(state).requests() && final(state).phase()
            == ToolLoopPhase::Done,
        final(state).calls() == old(state).calls(),
        final(state).next() == old(state).next(),
        final(state).requests() <= TOOL_LOOP_MAX_ROUNDS,
{
    proof {
        use_type_invariant(&*state);
    }
    if state.requests < TOOL_LOOP_MAX_ROUNDS {
        state.requests = state.requests + 1;
        state.phase = ToolLoopPhase::AwaitReply;
        ToolLoopAction::Request
    } else {
        state.phase = ToolLoopPhase::Done;
        ToolLoopAction::Fail(tool_loop_exceeded_error())
    }
}

/// The `tool` message after call `next` was refused (`timed_out` when the
/// user never answered).
fn deny(state: &mut ToolLoopState, name: String, timed_out: bool) -> (action: ToolLoopAction)
    requires
        old(state).next() < old(state).calls().len(),
    ensures
        action matches ToolLoopAction::AppendToolMessage { name: n, content, lines } && n@ == name@
            && content@ == denial_spec(name@) && (if timed_out {
            lines@.len() == 2 && lines@[0]@ == timeout_line_spec(name@) && lines@[1]@ == denied_line_spec(name@)
        } else {
            lines@.len() == 1 && lines@[0]@ == denied_line_spec(name@)
        }),
        final(state).phase() == ToolLoopPhase::Calls,
        final(state).next() == old(state).next() + 1,
        final(state).calls() == old(state).calls(),
        final(state).requests() == old(state).requests(),
{
    proof {
        use_type_invariant(&*state);
    }
    let mut lines: Vec<String> = Vec::new();
    if timed_out {
        lines.push(approval_timeout_line(name.as_str()));
    }
    lines.push(tool_denied_line(name.as_str()));
    let content = tool_denial_content(name.as_str());
    assert(state.next < state.calls.len());
    state.next = state.next + 1;
    state.phase = ToolLoopPhase::Calls;
    ToolLoopAction::AppendToolMessage { name, content, lines }
}

/// Decides the loop's next action from where it stands and what the
/// caller reports.
pub fn tool_loop_step(state: &mut ToolLoopState, event: ToolLoopEvent) -> (action: ToolLoopAction)
    ensures
        final(state).requests() <= TOOL_LOOP_MAX_ROUNDS,
        final(state).requests() <= old(state).requests() + 1,
        action is Request ==> final(state).requests() == old(state).requests() + 1,
        !(action is Request) ==> final(state).requests() == old(state).requests(),
        // Cancelling ends the loop.
        event is Cancelled && old(state).phase() != ToolLoopPhase::Done ==> action is Cancelled
            && final(state).phase() == ToolLoopPhase::Done,
        // A new round: a request while the cap allows, then the loop gives up.
        event is Next && (old(state).phase() == ToolLoopPhase::Start || (old(state).phase() == ToolLoopPhase::Calls
            && next_call(old(state).calls(), old(state).next() as int) >= old(state).calls().len())) ==> {
            &&& old(state).requests() < TOOL_LOOP_MAX_ROUNDS ==> action is Request && final(state).phase()
                == ToolLoopPhase::AwaitReply
            &&& old(state).requests() >= TOOL_LOOP_MAX_ROUNDS ==> (action matches ToolLoopAction::Fail(e)
                && is_exceeded_error(e)) && final(state).phase() == ToolLoopPhase::Done
        },
        // The next call: approval first for a destructive tool, else the tool runs.
        event is Next && old(state).phase() == ToolLoopPhase::Calls && next_call(
            old(state).calls(),
            old(state).next() as int,
        ) < old(state).calls().len() ==> ({
            let j = next_call(old(state).calls(), old(state).next() as int);
            call_at(old(state).calls(), j) matches Some((n, a)) && final(state).next() == j && (if is_destructive_spec(n) {
                action matches ToolLoopAction::AskApproval { index, name, arguments_json } && index == j
                    && name@ == n && arguments_json@ == a && final(state).phase() == ToolLoopPhase::AwaitApproval
            } else {
                action matches ToolLoopAction::Dispatch { index, name, line } && index == j && name@ == n
                    && line@ == call_line_spec(n, a) && final(state).phase() == ToolLoopPhase::AwaitResult
            })
        }),
        // A reply without calls is the final answer; otherwise its calls are worked through.
        old(state).phase() == ToolLoopPhase::AwaitReply ==> (event matches ToolLoopEvent::Reply { content, calls }
            ==> {
            &&& calls@.len() == 0 ==> (action matches ToolLoopAction::Finish { chunks, content: c } && c@
                == content@ && final_chunks(chunks@, content@)) && final(state).phase() == ToolLoopPhase::Done
            &&& calls@.len() > 0 ==> action is AppendAssistantTurn && final(state).phase() == ToolLoopPhase::Calls
                && final(state).calls() == calls@ && final(state).next() == 0
        }),
        // The user's answer: the tool runs only on approval.
        old(state).phase() == ToolLoopPhase::AwaitApproval ==> (call_at(old(state).calls(), old(state).next() as int)
            matches Some((n, a)) ==> (event matches ToolLoopEvent::Approval(ok) ==> {
            &&& ok ==> (action matches ToolLoopAction::Dispatch { index, name, line } && index == old(state).next()
                && name@ == n && line@ == call_line_spec(n, a)) && final(state).phase() == ToolLoopPhase::AwaitResult
                && final(state).next() == old(state).next()
            &&& !ok ==> (action matches ToolLoopAction::AppendToolMessage { name, content, lines } && name@ == n
                && content@ == denial_spec(n) && lines@.len() == 1 && lines@[0]@ == denied_line_spec(n))
                && final(state).phase() == ToolLoopPhase::Calls && final(state).next() == old(state).next() + 1
        })),
        // No answer in time counts as a denial.
        old(state).phase() == ToolLoopPhase::AwaitApproval && event is ApprovalTimedOut ==> (call_at(
            old(state).calls(),
            old(state).next() as int,
        ) matches Some((n, a)) ==> (action matches ToolLoopAction::AppendToolMessage { name, content, lines }
            && name@ == n && content@ == denial_spec(n) && lines@.len() == 2 && lines@[0]@ == timeout_line_spec(n)
            && lines@[1]@ == denied_line_spec(n)) && final(state).phase() == ToolLoopPhase::Calls && final(state).next()
            == old(state).next() + 1),
        // A tool's result is appended as it came back.
        old(state).phase() == ToolLoopPhase::AwaitResult ==> (call_at(old(state).calls(), old(state).next() as int)
            matches Some((n, a)) ==> (event matches ToolLoopEvent::ToolResult(res) ==> (action matches ToolLoopAction::AppendToolMessage { name, content, lines }
            && name@ == n && content@ == res@ && (starts_with(res@, "Error:"@) ==> lines@.len() == 1
            && lines@[0]@ == "[tool] "@ + n + " -> "@ + first_line(res@) + "\n"@) && (!starts_with(res@, "Error:"@)
            ==> lines@.len() == 0)) && final(state).phase() == ToolLoopPhase::Calls && final(state).next() == old(state).next() + 1)),
        // A destructive tool runs only on the user's approval of that call.
        action matches ToolLoopAction::Dispatch { index, name, .. } ==> (is_destructive_spec(name@) ==> old(state).phase()
            == ToolLoopPhase::AwaitApproval && (event matches ToolLoopEvent::Approval(ok) && ok) && index == old(state).next()),
        // Nothing to do leaves the state as it was.
        action is Wait ==> final(state).phase() == old(state).phase() && final(state).requests() == old(state).requests() && final(state).calls() == old(state).calls() && final(state).next() == old(state).next(),
{
    proof {
        use_type_invariant(&*state);
    }
    match event {
        ToolLoopEvent::Cancelled => {
            if state.phase == ToolLoopPhase::Done {
                ToolLoopAction::Wait
            } else {
                state.phase = ToolLoopPhase::Done;
                ToolLoopAction::Cancelled
            }
        },
        ToolLoopEvent::Next => {
            if state.phase == ToolLoopPhase::Start {
                return start_round(state);
            }
            if state.phase != ToolLoopPhase::Calls {
                return ToolLoopAction::Wait;
            }
            let mut j = state.next;
            proof {
                lemma_next_call(state.calls@, state.next as int);
            }
            while j < state.calls.len() && state.calls[j].is_none()
                invariant
                    state.next <= j,
                    next_call(state.calls@, j as int) == next_call(state.calls@, state.next as int),
                decreases state.calls.len() - j,
            {
                j = j + 1;
            }
            if j >= state.calls.len() {
                return start_round(state);
            }
            let (name, args) = match &state.calls[j] {
                Some(c) => (owned(c.name.as_str()), owned(c.arguments_json.as_str())),
                None => return ToolLoopAction::Wait,
            };
            state.next = j;
            if is_destructive(name.as_str()) {
                state.phase = ToolLoopPhase::AwaitApproval;
                ToolLoopAction::AskApproval { index: j, name, arguments_json: args }
            } else {
                let line = tool_call_line(name.as_str(), args.as_str());
                state.phase = ToolLoopPhase::AwaitResult;
                ToolLoopAction::Dispatch { index: j, name, line }
            }
        },
        ToolLoopEvent::Reply { content, calls } => {
            if state.phase != ToolLoopPhase::AwaitReply {
                return ToolLoopAction::Wait;
            }
            if calls.len() == 0 {
                let chunks = final_answer_chunks(content.as_str());
                state.phase = ToolLoopPhase::Done;
                ToolLoopAction::Finish { chunks, content }
            } else {
                state.calls = calls;
                state.next = 0;
                state.phase = ToolLoopPhase::Calls;
                ToolLoopAction::AppendAssistantTurn
            }
        },
        ToolLoopEvent::Approval(ok) => {
            if state.phase != ToolLoopPhase::AwaitApproval || state.next >= state.calls.len() {
                return ToolLoopAction::Wait;
            }
            let (name, args) = match &state.calls[state.next] {
                Some(c) => (owned(c.name.as_str()), owned(c.arguments_json.as_str())),
                None => return ToolLoopAction::Wait,
            };
            if ok {
                let line = tool_call_line(name.as_str(), args.as_str());
                state.phase = ToolLoopPhase::AwaitResult;
                ToolLoopAction::Dispatch { index: state.next, name, line }
            } else {
                deny(state, name, false)
            }
        },
        ToolLoopEvent::ApprovalTimedOut => {
            if state.phase != ToolLoopPhase::AwaitApproval || state.next >= state.calls.len() {
                return ToolLoopAction::Wait;
            }
            let name = match &state.calls[state.next] {
                Some(c) => owned(c.name.as_str()),
                None => return ToolLoopAction::Wait,
            };
            deny(state, name, true)
        },
        ToolLoopEvent::ToolResult(res) => {
            if state.phase != ToolLoopPhase::AwaitResult || state.next >= state.calls.len() {
                return ToolLoopAction::Wait;
            }
            let name = match &state.calls[state.next] {
                Some(c) => owned(c.name.as_str()),
                None => return ToolLoopAction::Wait,
            };
            let mut lines: Vec<String> = Vec::new();
            match tool_failure_line(name.as_str(), res.as_str()) {
                Some(l) => lines.push(l),
                None => {},
            }
            state.next = state.next + 1;
            state.phase = ToolLoopPhase::Calls;
            ToolLoopAction::AppendToolMessage { name, content: res, lines }
        },
    }
}

// ─── Reading a tool-route reply ───────────────────────────────────────────

/// What a non-streaming `/api/chat` body holds: `None` when it is not
/// JSON; `Some(None)` when it has no `message`; otherwise the message's
/// `content` string (when a string) and its `tool_calls` array (when an
/// array).
pub open spec fn tool_reply_message(body: Seq<char>) -> Option<Option<(Option<Seq<char>>, Option<Seq<serde_json::Value>>)>> {
    match json_parse(body) {
        None => None,
        Some(v) => match json_member(v, "message"@) {
            None => Some(None),
            Some(m) => Some(Some((member_str(m, "content"@), member_array(m, "tool_calls"@)))),
        },
    }
}

/// Parses a non-streaming `/api/chat` body and reads its `message`, the
/// message's `content` string and its `tool_calls` array.
fn tool_reply_fields(body: &str) -> (r: Option<Option<(Option<String>, Option<Vec<serde_json::Value>>)>>)
    ensures
        match (r, tool_reply_message(body@)) {
            (None, None) => true,
            (Some(None), Some(None)) => true,
            (Some(Some((c, tc))), Some(Some((c2, tc2)))) => (match c {
                Some(x) => Some(x@),
                None => None,
            }) == c2 && (match tc {
                Some(v) => Some(v@),
                None => None,
            }) == tc2,
            _ => false,
        },
{
    let v = match json_from_str(body) {
        Some(v) => v,
        None => return None,
    };
    let msg = match json_get(&v, "message") {
        Some(m) => m,
        None => return Some(None),
    };
    let content = get_str(&msg, "content");
    let calls = get_array(&msg, "tool_calls");
    Some(Some((content, calls)))
}

/// What one entry of `tool_calls` holds: `None` when it has no
/// `function`; otherwise the function's `name` (when a string) and its
/// `arguments` as JSON text (when present).
pub open spec fn tool_call_function(call: serde_json::Value) -> Option<(Option<Seq<char>>, Option<Seq<char>>)> {
    match json_member(call, "function"@) {
        None => None,
        Some(f) => Some((
            member_str(f, "name"@),
            match json_member(f, "arguments"@) {
                Some(a) => Some(json_text(a)),
                None => None,
            },
        )),
    }
}

/// Reads `function`, its `name` string and its `arguments` as JSON text
/// from one tool call.
fn tool_call_fields(call: &serde_json::Value) -> (r: Option<(Option<String>, Option<String>)>)
    ensures
        match (r, tool_call_function(*call)) {
            (None, None) => true,
            (Some((n, a)), Some((n2, a2))) => (match n {
                Some(x) => Some(x@),
                None => None,
            }) == n2 && (match a {
                Some(x) => Some(x@),
                None => None,
            }) == a2,
            _ => false,
        },
{
    let f = match json_get(call, "function") {
        Some(f) => f,
        None => return None,
    };
    let name = get_str(&f, "name");
    let args = match json_get(&f, "arguments") {
        Some(a) => Some(json_to_string(&a)),
        None => None,
    };
    Some((name, args))
}

/// A tool-route reply: its content, its calls as the loop sees them, and
/// the raw `tool_calls` array for the conversation.
pub struct ToolReply {
    pub content: String,
    pub calls: Vec<Option<ToolCallInfo>>,
    pub raw_calls: Vec<serde_json::Value>,
}

/// The call the loop sees for the fields of one `tool_calls` entry: none
/// without a `function`; otherwise its name (empty when absent) and its
/// arguments (`null` when absent).
pub open spec fn call_info_matches(info: Option<ToolCallInfo>, fields: Option<(Option<Seq<char>>, Option<Seq<char>>)>) -> bool {
    match (info, fields) {
        (None, None) => true,
        (Some(c), Some((n, a))) => c.name@ == (match n {
            Some(x) => x,
            None => Seq::<char>::empty(),
        }) && c.arguments_json@ == (match a {
            Some(x) => x,
            None => "null"@,
        }),
        _ => false,
    }
}

/// Reads a tool-route reply: not JSON is a malformed response, no
/// `message` is a missing message; otherwise the content (empty when not
/// a string) and each tool call (none when `tool_calls` is not an array).
pub fn decode_tool_reply(body: &str) -> (r: Result<ToolReply, OllamaError>)
    ensures
        match tool_reply_message(body@) {
            None => r matches Err(e) && e.kind == OllamaErrorKind::Other && e.message@
                == "Something went wrong\nMalformed response from Ollama."@,
            Some(None) => r matches Err(e) && e.kind == OllamaErrorKind::Other && e.message@
                == "Something went wrong\nResponse missing message field."@,
            Some(Some((c, tc))) => r matches Ok(reply) && reply.content@ == (match c {
                Some(x) => x,
                None => Seq::<char>::empty(),
            }) && reply.raw_calls@ == (match tc {
                Some(v) => v,
                None => Seq::<serde_json::Value>::empty(),
            }) && reply.calls@.len() == reply.raw_calls@.len() && forall|i: int|
                0 <= i < reply.calls@.len() ==> call_info_matches(
                    #[trigger] reply.calls@[i],
                    tool_call_function(reply.raw_calls@[i]),
                ),
        },
{
    match tool_reply_fields(body) {
        None => Err(malformed_response_error()),
        Some(None) => Err(missing_message_error()),
        Some(Some((c, tc))) => {
            let content = match c {
                Some(x) => x,
                None => String::new(),
            };
            let raw_calls = match tc {
                Some(v) => v,
                None => Vec::new(),
            };
            let mut calls: Vec<Option<ToolCallInfo>> = Vec::new();
            let mut i: usize = 0;
            while i < raw_calls.len()
                invariant
                    i <= raw_calls@.len(),
                    calls@.len() == i,
                    forall|k: int| 0 <= k < i ==> call_info_matches(#[trigger] calls@[k], tool_call_function(raw_calls@[k])),
                decreases raw_calls.len() - i,
            {
                let info = match tool_call_fields(&raw_calls[i]) {
                    None => None,
                    Some((n, a)) => {
                        let name = match n {
                            Some(x) => x,
                            None => String::new(),
                        };
                        let arguments_json = match a {
                            Some(x) => x,
                            None => owned("null"),
                        };
                        Some(ToolCallInfo { name, arguments_json })
                    },
                };
                calls.push(info);
                i = i + 1;
            }
            Ok(ToolReply { content, calls, raw_calls })
        },
    }
}

} // verus!
