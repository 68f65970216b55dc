//! MCP (Model Context Protocol) client logic: the `mcp__<server>__<tool>`
//! naming convention, JSON-RPC line decoding, tool-catalog extraction and
//! tool-result formatting.
use vstd::prelude::*;
use vstd::string::StringSliceAdditionalSpecFns;
use crate::store::KeyedStore;
use crate::json::{
    get_array, get_str, is_json_null, json_as_bool, json_as_i64, json_bool, json_from_str, json_get, json_i64,
    json_member, json_null, json_parse, member_array, member_str,
};
use crate::text::{
    chars_of, contains, contains_str, eq_str, find, find_exec, lemma_find_sound, occurs_at, push_chars,
    push_str, slice_chars, starts_with, starts_with_str, string_of, trim, trim_exec,
};

verus! {

broadcast use vstd::string::group_string_axioms;

/// Prefix used to flatten an MCP server's tool name into the catalog.
pub const MCP_TOOL_NAME_PREFIX: &'static str = "mcp__";

/// Separator between server name and tool name inside the prefixed form.
pub const MCP_TOOL_NAME_SEPARATOR: &'static str = "__";

/// Maximum per-MCP-tool name length as exposed by the server, in bytes.
pub const MCP_TOOL_NAME_MAX_LEN: usize = 96;

/// Maximum bytes of text returned to the model from one MCP tool call.
pub const MCP_TOOL_RESULT_MAX_BYTES: usize = 50_000;

// ─── Tool naming ──────────────────────────────────────────────────────────


/// The (server, tool) components of an MCP tool name, if well formed:
/// everything up to the first `__` after the prefix is the server, the
/// rest is the tool; both must be non-empty.
pub open spec fn split_mcp_spec(name: Seq<char>) -> Option<(Seq<char>, Seq<char>)> {
    if !starts_with(name, "mcp__"@) {
        None
    } else {
        let rest = name.skip("mcp__"@.len() as int);
        match find(rest, "__"@) {
            None => None,
            Some(i) => {
                let server = rest.take(i);
                let tool = rest.skip(i + "__"@.len());
                if server.len() == 0 || tool.len() == 0 { None } else { Some((server, tool)) }
            },
        }
    }
}

/// `name` follows the `mcp__<server>__<tool>` shape, with a non-empty
/// server and a non-empty tool.
pub open spec fn is_mcp_name_spec(name: Seq<char>) -> bool {
    split_mcp_spec(name) is Some
}

/// Returns true when `name` follows the `mcp__<server>__<tool>` shape,
/// with a non-empty server and a non-empty tool.
pub fn is_mcp_tool_name(name: &str) -> (b: bool)
    ensures
        b == is_mcp_name_spec(name@),
        b == (split_mcp_spec(name@) is Some),
{
    split_mcp_tool_name(name).is_some()
}

/// Splits a `mcp__<server>__<tool>` name into its components, or `None`
/// if the shape does not match.
pub fn split_mcp_tool_name(name: &str) -> (r: Option<(&str, &str)>)
    ensures
        r is None <==> split_mcp_spec(name@) is None,
        r matches Some((s, t)) ==> split_mcp_spec(name@) == Some((s@, t@)),
{
    let v = chars_of(name);
    if !starts_with_str(&v, MCP_TOOL_NAME_PREFIX) {
        return None;
    }
    let p = chars_of(MCP_TOOL_NAME_PREFIX);
    let rest = slice_chars(&v, p.len(), v.len());
    assert(rest@ =~= name@.skip("mcp__"@.len() as int));
    let sep = chars_of(MCP_TOOL_NAME_SEPARATOR);
    match find_exec(&rest, &sep) {
        None => None,
        Some(i) => {
            proof { lemma_find_sound(rest@, sep@); }
            let start = p.len();
            let server = name.substring_char(start, start + i);
            let tool = name.substring_char(start + i + sep.len(), v.len());
            assert(server@ =~= rest@.take(i as int));
            assert(tool@ =~= rest@.skip(i + "__"@.len()));
            if server.is_empty() || tool.is_empty() {
                None
            } else {
                Some((server, tool))
            }
        },
    }
}

/// Every well-formed split comes from a name the MCP predicate accepts,
/// and the name is the prefix, server, separator and tool put back
/// together.
pub proof fn law_split_matches_predicate(name: Seq<char>)
    ensures
        split_mcp_spec(name) matches Some((s, t)) ==> is_mcp_name_spec(name) && name == "mcp__"@ + s
            + "__"@ + t,
{
    let rest = name.skip("mcp__"@.len() as int);
    lemma_find_sound(rest, "__"@);
    if let Some((s, t)) = split_mcp_spec(name) {
        let i = find(rest, "__"@)->0;
        assert(occurs_at(rest, "__"@, i));
        assert(rest.subrange(i, i + "__"@.len()) == "__"@);
        assert(rest =~= s + "__"@ + t);
        assert(name =~= name.take("mcp__"@.len() as int) + rest);
    }
}

// ─── JSON-RPC decoding ────────────────────────────────────────────────────

/// The fields of a JSON-RPC message that the client reads: `None` when
/// `text` is not JSON; otherwise the integer `id` (if any), when an
/// `error` member is present its `message` string (if any), and the
/// `result` member (if any).
pub open spec fn jsonrpc_frame(text: Seq<char>) -> Option<(Option<i64>, Option<Option<Seq<char>>>, Option<serde_json::Value>)> {
    match json_parse(text) {
        None => None,
        Some(v) => Some((
            match json_member(v, "id"@) {
                Some(i) => json_i64(i),
                None => None,
            },
            match json_member(v, "error"@) {
                Some(e) => Some(member_str(e, "message"@)),
                None => None,
            },
            json_member(v, "result"@),
        )),
    }
}

/// View of an optional optional string.
pub open spec fn opt_opt_view(e: Option<Option<String>>) -> Option<Option<Seq<char>>> {
    match e {
        Some(Some(s)) => Some(Some(s@)),
        Some(None) => Some(None),
        None => None,
    }
}

/// Parses `text` as JSON and reads its `id`, the `message` of its `error`
/// member, and its `result` member.
fn parse_jsonrpc_frame(text: &str) -> (r: Option<(Option<i64>, Option<Option<String>>, Option<serde_json::Value>)>)
    ensures
        r is None <==> jsonrpc_frame(text@) is None,
        r matches Some((id, err, res)) ==> jsonrpc_frame(text@) == Some((id, opt_opt_view(err), res)),
{
    let v = match json_from_str(text) {
        Some(v) => v,
        None => return None,
    };
    let id = match json_get(&v, "id") {
        Some(i) => json_as_i64(&i),
        None => None,
    };
    let err = match json_get(&v, "error") {
        Some(e) => Some(get_str(&e, "message")),
        None => None,
    };
    let result = json_get(&v, "result");
    Some((id, err, result))
}

/// Result of decoding one inbound stdout line.
#[derive(Debug, PartialEq)]
pub enum InboundMessage {
    /// Result of a previously-sent request (`null` when absent).
    Response { id: i64, result: serde_json::Value },
    /// Error answer to a previously-sent request.
    ResponseError { id: i64, message: String },
    /// Server-initiated message without an id.
    Notification,
    /// Blank line or a line that is not JSON.
    Ignored,
}

/// The message a JSON-RPC frame stands for: `Ignored` when it is not a
/// frame, a notification without an integer id, an error answer when an
/// `error` member is present (with a fallback message), a result
/// otherwise (`null` when absent).
pub open spec fn inbound_for_frame(
    frame: Option<(Option<i64>, Option<Option<Seq<char>>>, Option<serde_json::Value>)>,
    r: InboundMessage,
) -> bool {
    match frame {
        None => r == InboundMessage::Ignored,
        Some((None, _, _)) => r == InboundMessage::Notification,
        Some((Some(id), Some(m), _)) => r matches InboundMessage::ResponseError { id: i, message } && i == id
            && message@ == (match m {
            Some(s) => s,
            None => "unknown JSON-RPC error"@,
        }),
        Some((Some(id), None, res)) => r matches InboundMessage::Response { id: i, result } && i == id
            && match res {
            Some(v) => result == v,
            None => is_json_null(result),
        },
    }
}

/// The view of a parsed frame.
pub open spec fn frame_view(
    frame: Option<(Option<i64>, Option<Option<String>>, Option<serde_json::Value>)>,
) -> Option<(Option<i64>, Option<Option<Seq<char>>>, Option<serde_json::Value>)> {
    match frame {
        Some((id, err, res)) => Some((id, opt_opt_view(err), res)),
        None => None,
    }
}

/// Turns the fields read from one line into the message they stand for.
pub fn inbound_from_frame(
    frame: Option<(Option<i64>, Option<Option<String>>, Option<serde_json::Value>)>,
) -> (r: InboundMessage)
    ensures
        inbound_for_frame(frame_view(frame), r),
{
    match frame {
        None => InboundMessage::Ignored,
        Some((None, _, _)) => InboundMessage::Notification,
        Some((Some(id), Some(m), _)) => {
            let message = match m {
                Some(s) => s,
                None => crate::text::owned("unknown JSON-RPC error"),
            };
            InboundMessage::ResponseError { id, message }
        },
        Some((Some(id), None, result)) => {
            let result = match result {
                Some(v) => v,
                None => json_null(),
            };
            InboundMessage::Response { id, result }
        },
    }
}

/// Decodes one stdout line of the stdio JSON-RPC transport: blank and
/// non-JSON lines are ignored, messages without an integer id are
/// notifications, an `error` member makes an error answer (with a
/// fallback message), anything else is a result.
pub fn decode_inbound_line(line: &str) -> (r: InboundMessage)
    ensures
        ({
            let t = trim(line@);
            &&& t.len() == 0 ==> r == InboundMessage::Ignored
            &&& t.len() > 0 ==> inbound_for_frame(jsonrpc_frame(t), r)
        }),
{
    let t = trim_exec(&chars_of(line));
    if t.len() == 0 {
        return InboundMessage::Ignored;
    }
    let ts = string_of(&t);
    inbound_from_frame(parse_jsonrpc_frame(ts.as_str()))
}

// ─── Tool catalog ─────────────────────────────────────────────────────────

/// One MCP tool as the server exposed it via `tools/list`.
#[derive(Clone, Debug, PartialEq)]
pub struct McpToolEntry {
    pub server_name: String,
    pub tool_name: String,
    pub prefixed_name: String,
    pub description: String,
    /// JSON Schema object the model uses to format arguments, verbatim.
    pub input_schema: serde_json::Value,
}

/// Status of one configured MCP server, surfaced to the Settings UI.
#[derive(Clone, Debug, PartialEq, Eq)]
pub struct McpServerStatus {
    pub name: String,
    pub command: String,
    pub args: Vec<String>,
    /// A live client exists and its tool list is cached.
    pub connected: bool,
    /// Number of tools advertised on the last `tools/list`.
    pub tool_count: usize,
    /// Error from the last connect attempt, if any.
    pub last_error: Option<String>,
}

/// The fields of one `tools/list` entry as plain values: its `name` and
/// `description` strings (when strings) and its `inputSchema`.
pub type ToolFieldsView = (Option<Seq<char>>, Option<Seq<char>>, Option<serde_json::Value>);

/// The view of one entry's fields.
pub open spec fn tool_fields_view(f: (Option<String>, Option<String>, Option<serde_json::Value>)) -> ToolFieldsView {
    (
        match f.0 {
            Some(n) => Some(n@),
            None => None,
        },
        match f.1 {
            Some(d) => Some(d@),
            None => None,
        },
        f.2,
    )
}

/// The fields of one entry of a `tools` array.
pub open spec fn tool_entry_fields(e: serde_json::Value) -> ToolFieldsView {
    (member_str(e, "name"@), member_str(e, "description"@), json_member(e, "inputSchema"@))
}

/// The entries of the `tools` array of a `tools/list` result, each as its
/// `name` and `description` strings and its `inputSchema`; `None` when
/// `tools` is absent or not an array.
pub open spec fn tools_list_entries(result: serde_json::Value) -> Option<Seq<ToolFieldsView>> {
    match member_array(result, "tools"@) {
        Some(arr) => Some(arr.map_values(|e: serde_json::Value| tool_entry_fields(e))),
        None => None,
    }
}

/// Reads the `tools` array of a `tools/list` result and, per entry, its
/// `name` and `description` strings and its `inputSchema`.
fn tools_list_fields(result: &serde_json::Value) -> (r: Option<Vec<(Option<String>, Option<String>, Option<serde_json::Value>)>>)
    ensures
        match (r, tools_list_entries(*result)) {
            (None, None) => true,
            (Some(v), Some(f)) => v@.map_values(|t: (Option<String>, Option<String>, Option<serde_json::Value>)| tool_fields_view(t)) == f,
            _ => false,
        },
{
    let arr = match get_array(result, "tools") {
        Some(a) => a,
        None => return None,
    };
    let mut out: Vec<(Option<String>, Option<String>, Option<serde_json::Value>)> = Vec::new();
    let mut i: usize = 0;
    while i < arr.len()
        invariant
            i <= arr.len(),
            out.len() == i,
            forall|j: int| 0 <= j < i ==> tool_fields_view(#[trigger] out@[j]) == tool_entry_fields(arr@[j]),
        decreases arr.len() - i,
    {
        let e = &arr[i];
        let name = get_str(e, "name");
        let description = get_str(e, "description");
        let schema = json_get(e, "inputSchema");
        out.push((name, description, schema));
        i = i + 1;
    }
    assert(out@.map_values(|t: (Option<String>, Option<String>, Option<serde_json::Value>)| tool_fields_view(t))
        =~= arr@.map_values(|e: serde_json::Value| tool_entry_fields(e)));
    Some(out)
}

/// `v` is the schema given to a tool that declares none: the JSON object
/// `{"type": "object", "properties": {}}`.
pub uninterp spec fn is_default_input_schema(v: serde_json::Value) -> bool;

/// The JSON object `{"type": "object", "properties": {}}` built with
/// `serde_json::Map`, the schema given to a tool that declares none.
#[verifier::external_body]
fn default_input_schema() -> (r: serde_json::Value)
    ensures
        is_default_input_schema(r),
{
    let mut m = serde_json::Map::new();
    m.insert("type".to_string(), serde_json::Value::String("object".to_string()));
    m.insert("properties".to_string(), serde_json::Value::Object(serde_json::Map::new()));
    serde_json::Value::Object(m)
}

/// The prefixed name Ollama sees for a server's tool.
pub open spec fn prefixed_name_spec(server: Seq<char>, tool: Seq<char>) -> Seq<char> {
    "mcp__"@ + server + "__"@ + tool
}

/// A catalog candidate is kept when its name is present, non-empty and at
/// most the byte cap.
pub open spec fn keeps_tool_name(name: Option<Seq<char>>) -> bool {
    name matches Some(n) && n.len() > 0 && crate::text::byte_len(n) <= MCP_TOOL_NAME_MAX_LEN
}

/// The candidates that are kept, in order.
pub open spec fn kept_fields(fields: Seq<ToolFieldsView>) -> Seq<ToolFieldsView>
    decreases fields.len(),
{
    if fields.len() == 0 {
        Seq::empty()
    } else {
        kept_fields(fields.drop_last()) + if keeps_tool_name(fields.last().0) {
            seq![fields.last()]
        } else {
            Seq::<ToolFieldsView>::empty()
        }
    }
}

/// `e` is the catalog entry built for the kept candidate `k` of server
/// `server`: its name, the prefixed name, its description (empty when
/// absent) and its input schema (the default object schema when absent).
pub open spec fn entry_from_fields(e: McpToolEntry, k: ToolFieldsView, server: Seq<char>) -> bool {
    &&& k.0 matches Some(n) && e.tool_name@ == n
    &&& e.server_name@ == server
    &&& e.prefixed_name@ == prefixed_name_spec(server, e.tool_name@)
    &&& e.description@ == match k.1 {
        Some(d) => d,
        None => Seq::<char>::empty(),
    }
    &&& match k.2 {
        Some(sc) => e.input_schema == sc,
        None => is_default_input_schema(e.input_schema),
    }
}

/// Builds catalog entries from the fields of `tools/list` entries:
/// nameless, empty-named and over-long names are dropped; every kept entry
/// is prefixed `mcp__<server>__<tool>`, with an empty description and a
/// default object schema when the server gave none.
pub fn tool_entries_from_fields(
    server_name: &str,
    fields: Vec<(Option<String>, Option<String>, Option<serde_json::Value>)>,
) -> (r: Vec<McpToolEntry>)
    ensures
        ({
            let k = kept_fields(fields@.map_values(|t: (Option<String>, Option<String>, Option<serde_json::Value>)| tool_fields_view(t)));
            &&& r@.len() == k.len()
            &&& forall|i: int| 0 <= i < r@.len() ==> entry_from_fields(#[trigger] r@[i], k[i], server_name@)
        }),
{
    let ghost orig = fields@.map_values(|t: (Option<String>, Option<String>, Option<serde_json::Value>)| tool_fields_view(t));
    let mut fields = fields;
    let mut out: Vec<McpToolEntry> = Vec::new();
    let mut i: usize = 0;
    while i < fields.len()
        invariant
            i <= fields@.len(),
            fields@.len() == orig.len(),
            forall|j: int| i <= j < orig.len() ==> tool_fields_view(#[trigger] fields@[j]) == orig[j],
            out@.len() == kept_fields(orig.take(i as int)).len(),
            forall|j: int| 0 <= j < out@.len() ==> entry_from_fields(#[trigger] out@[j], kept_fields(orig.take(i as int))[j], server_name@),
        decreases fields.len() - i,
    {
        assert(orig.take(i + 1).drop_last() =~= orig.take(i as int));
        assert(orig.take(i + 1).last() == orig[i as int]);
        let ghost fv = orig[i as int];
        let ghost prev = kept_fields(orig.take(i as int));
        let name = fields[i].0.take();
        let desc = fields[i].1.take();
        let schema = fields[i].2.take();
        assert(fv.0 == match name { Some(n) => Some(n@), None => None::<Seq<char>> });
        assert(fv.1 == match desc { Some(d) => Some(d@), None => None::<Seq<char>> });
        assert(fv.2 == schema);
        match name {
            Some(n) => {
                if !n.as_str().is_empty() && n.as_str().len() <= MCP_TOOL_NAME_MAX_LEN {
                    let description = match desc {
                        Some(d) => d,
                        None => String::new(),
                    };
                    let input_schema = match schema {
                        Some(s) => s,
                        None => default_input_schema(),
                    };
                    let mut pv: Vec<char> = Vec::new();
                    push_str(&mut pv, MCP_TOOL_NAME_PREFIX);
                    push_str(&mut pv, server_name);
                    push_str(&mut pv, MCP_TOOL_NAME_SEPARATOR);
                    push_str(&mut pv, n.as_str());
                    let e = McpToolEntry {
                        server_name: crate::text::owned(server_name),
                        tool_name: n,
                        prefixed_name: string_of(&pv),
                        description,
                        input_schema,
                    };
                    assert(entry_from_fields(e, fv, server_name@));
                    let ghost before = out@;
                    out.push(e);
                    assert(kept_fields(orig.take(i + 1)) == prev + seq![fv]);
                    assert forall|j: int| 0 <= j < out@.len() implies entry_from_fields(#[trigger] out@[j], kept_fields(orig.take(i + 1))[j], server_name@) by {
                        if j < prev.len() {
                            assert(out@[j] == before[j]);
                        }
                    }
                } else {
                    assert(kept_fields(orig.take(i + 1)) =~= prev);
                }
            },
            None => {
                assert(kept_fields(orig.take(i + 1)) =~= prev);
            },
        }
        i = i + 1;
    }
    assert(orig.take(orig.len() as int) =~= orig);
    out
}

/// Pulls the tool catalog out of a `tools/list` response: one entry per
/// element of `tools` whose name is a non-empty string within the byte
/// cap, in order, carrying the server's name, the prefixed name, the
/// description (empty when absent) and the input schema (the default
/// object schema when absent).
pub fn parse_tools_list_response(server_name: &str, result: &serde_json::Value) -> (r: Vec<McpToolEntry>)
    ensures
        ({
            let f = match tools_list_entries(*result) {
                Some(f) => f,
                None => Seq::<ToolFieldsView>::empty(),
            };
            &&& r@.len() == kept_fields(f).len()
            &&& forall|i: int| 0 <= i < r@.len() ==> entry_from_fields(#[trigger] r@[i], kept_fields(f)[i], server_name@)
        }),
        forall|i: int| 0 <= i < r@.len() ==> {
            &&& (#[trigger] r@[i]).server_name@ == server_name@
            &&& r@[i].prefixed_name@ == prefixed_name_spec(server_name@, r@[i].tool_name@)
            &&& r@[i].tool_name@.len() > 0
            &&& crate::text::byte_len(r@[i].tool_name@) <= MCP_TOOL_NAME_MAX_LEN
        },
{
    let fields = match tools_list_fields(result) {
        Some(f) => f,
        None => Vec::new(),
    };
    proof {
        if tools_list_entries(*result) is None {
            assert(fields@.map_values(|t: (Option<String>, Option<String>, Option<serde_json::Value>)| tool_fields_view(t)) =~= Seq::<ToolFieldsView>::empty());
        }
    }
    let ghost fv = fields@.map_values(|t: (Option<String>, Option<String>, Option<serde_json::Value>)| tool_fields_view(t));
    let r = tool_entries_from_fields(server_name, fields);
    proof {
        lemma_kept_fields_kept(fv);
        assert forall|i: int| 0 <= i < r@.len() implies (#[trigger] r@[i]).tool_name@.len() > 0
            && crate::text::byte_len(r@[i].tool_name@) <= MCP_TOOL_NAME_MAX_LEN by {
            assert(entry_from_fields(r@[i], kept_fields(fv)[i], server_name@));
            assert(keeps_tool_name(kept_fields(fv)[i].0));
        }
    }
    r
}

/// Every kept candidate has a kept name.
proof fn lemma_kept_fields_kept(fields: Seq<ToolFieldsView>)
    ensures
        forall|i: int| 0 <= i < kept_fields(fields).len() ==> keeps_tool_name(#[trigger] kept_fields(fields)[i].0),
    decreases fields.len(),
{
    if fields.len() > 0 {
        lemma_kept_fields_kept(fields.drop_last());
        let prev = kept_fields(fields.drop_last());
        assert forall|i: int| 0 <= i < kept_fields(fields).len() implies keeps_tool_name(#[trigger] kept_fields(fields)[i].0) by {
            if i < prev.len() {
                assert(kept_fields(fields)[i] == prev[i]);
            }
        }
    }
}

// ─── Tool results ─────────────────────────────────────────────────────────

/// The view of one content part: its `type` and `text` strings.
pub open spec fn part_view(p: (Option<String>, Option<String>)) -> (Option<Seq<char>>, Option<Seq<char>>) {
    (
        match p.0 {
            Some(k) => Some(k@),
            None => None,
        },
        match p.1 {
            Some(t) => Some(t@),
            None => None,
        },
    )
}

/// The `type` and `text` strings of one content part.
pub open spec fn content_part_fields(p: serde_json::Value) -> (Option<Seq<char>>, Option<Seq<char>>) {
    (member_str(p, "type"@), member_str(p, "text"@))
}

/// The fields of a `tools/call` result: the `isError` flag (when a
/// boolean) and, when `content` is an array, each part's `type` and
/// `text` strings.
pub open spec fn tool_result_parts(result: serde_json::Value) -> (Option<bool>, Option<Seq<(Option<Seq<char>>, Option<Seq<char>>)>>) {
    (
        match json_member(result, "isError"@) {
            Some(f) => json_bool(f),
            None => None,
        },
        match member_array(result, "content"@) {
            Some(arr) => Some(arr.map_values(|p: serde_json::Value| content_part_fields(p))),
            None => None,
        },
    )
}

/// Reads the `isError` flag and, per part of the `content` array, its
/// `type` and `text` strings from a `tools/call` result.
fn tool_result_fields(result: &serde_json::Value) -> (r: (Option<bool>, Option<Vec<(Option<String>, Option<String>)>>))
    ensures
        r.0 == tool_result_parts(*result).0,
        match (r.1, tool_result_parts(*result).1) {
            (None, None) => true,
            (Some(v), Some(ps)) => v@.map_values(|p: (Option<String>, Option<String>)| part_view(p)) == ps,
            _ => false,
        },
{
    let is_error = match json_get(result, "isError") {
        Some(f) => json_as_bool(&f),
        None => None,
    };
    let arr = match get_array(result, "content") {
        Some(a) => a,
        None => return (is_error, None),
    };
    let mut out: Vec<(Option<String>, Option<String>)> = Vec::new();
    let mut i: usize = 0;
    while i < arr.len()
        invariant
            i <= arr.len(),
            out.len() == i,
            forall|j: int| 0 <= j < i ==> part_view(#[trigger] out@[j]) == content_part_fields(arr@[j]),
        decreases arr.len() - i,
    {
        let p = &arr[i];
        let kind = get_str(p, "type");
        let text = get_str(p, "text");
        out.push((kind, text));
        i = i + 1;
    }
    assert(out@.map_values(|p: (Option<String>, Option<String>)| part_view(p))
        =~= arr@.map_values(|p: serde_json::Value| content_part_fields(p)));
    (is_error, Some(out))
}

/// The concatenated text parts: each `text` part contributes its text and
/// a newline; other parts contribute nothing.
pub open spec fn text_parts(parts: Seq<(Option<Seq<char>>, Option<Seq<char>>)>) -> Seq<char>
    decreases parts.len(),
{
    if parts.len() == 0 {
        Seq::empty()
    } else {
        text_parts(parts.drop_last()) + match parts.last() {
            (Some(k), Some(t)) => if k == "text"@ { t + "\n"@ } else { Seq::<char>::empty() },
            _ => Seq::<char>::empty(),
        }
    }
}

/// The text a tool result is flattened to.
pub open spec fn tool_result_text_spec(is_error: bool, parts: Seq<(Option<Seq<char>>, Option<Seq<char>>)>) -> Seq<char> {
    let t = trim((if is_error { "[error] "@ } else { Seq::<char>::empty() }) + text_parts(parts));
    if crate::text::byte_len(t) > MCP_TOOL_RESULT_MAX_BYTES {
        let cut = crate::tools::boundary_at_or_below(vstd::utf8::encode_utf8(t), MCP_TOOL_RESULT_MAX_BYTES as int);
        crate::tools::utf8_prefix_spec(t, MCP_TOOL_RESULT_MAX_BYTES as int) + "\n\n[truncated: showing first "@
            + crate::text::decimal(cut as nat) + " of "@ + crate::text::decimal(
            crate::text::byte_len(t) as nat,
        ) + " bytes]"@
    } else if t.len() == 0 {
        "(no content)"@
    } else {
        t
    }
}

/// Flattens the fields of a `tools/call` result into the text returned to
/// the model: `[error] ` when the tool reported failure, every text part
/// followed by a newline, trimmed, truncated with a marker when it exceeds
/// the byte cap, `(no content)` when empty.
pub fn format_tool_result_text(is_error: bool, parts: &Vec<(Option<String>, Option<String>)>) -> (r: String)
    ensures
        r@ == tool_result_text_spec(is_error, parts@.map_values(|p: (Option<String>, Option<String>)| part_view(p))),
{
    let ghost pv = parts@.map_values(|p: (Option<String>, Option<String>)| part_view(p));
    let mut buf: Vec<char> = Vec::new();
    if is_error {
        push_str(&mut buf, "[error] ");
    }
    let ghost head = buf@;
    assert(head == (if is_error { "[error] "@ } else { Seq::<char>::empty() }));
    let mut i: usize = 0;
    while i < parts.len()
        invariant
            i <= parts@.len(),
            pv == parts@.map_values(|p: (Option<String>, Option<String>)| part_view(p)),
            buf@ == head + text_parts(pv.take(i as int)),
        decreases parts.len() - i,
    {
        assert(pv.take(i + 1).drop_last() =~= pv.take(i as int));
        assert(pv.take(i + 1).last() == part_view(parts@[i as int]));
        let ghost before = buf@;
        let part = &parts[i];
        match (&part.0, &part.1) {
            (Some(k), Some(t)) => {
                if eq_str(&chars_of(k.as_str()), "text") {
                    push_str(&mut buf, t.as_str());
                    push_str(&mut buf, "\n");
                } else {
                    assert(buf@ =~= before + Seq::<char>::empty());
                }
            },
            _ => {
                assert(buf@ =~= before + Seq::<char>::empty());
            },
        }
        assert(buf@ =~= head + text_parts(pv.take(i + 1)));
        i = i + 1;
    }
    assert(pv.take(pv.len() as int) =~= pv);
    let t = trim_exec(&buf);
    let ts = string_of(&t);
    if ts.as_str().len() > MCP_TOOL_RESULT_MAX_BYTES {
        let total = ts.as_str().len();
        let (head, cut) = crate::tools::utf8_prefix_within(ts.as_str(), MCP_TOOL_RESULT_MAX_BYTES);
        let mut out = chars_of(head.as_str());
        push_str(&mut out, "\n\n[truncated: showing first ");
        let a = crate::text::decimal_exec(cut as u64);
        push_chars(&mut out, &a);
        push_str(&mut out, " of ");
        let b = crate::text::decimal_exec(total as u64);
        push_chars(&mut out, &b);
        push_str(&mut out, " bytes]");
        string_of(&out)
    } else if t.len() == 0 {
        crate::text::owned("(no content)")
    } else {
        ts
    }
}

/// Flattens an MCP `tools/call` result into a single textual string for
/// the chat loop (see [`format_tool_result_text`]).
pub fn format_tool_call_result(result: &serde_json::Value) -> (r: String)
    ensures
        r@ == tool_result_text_spec(
            match tool_result_parts(*result).0 {
                Some(b) => b,
                None => false,
            },
            match tool_result_parts(*result).1 {
                Some(ps) => ps,
                None => Seq::empty(),
            },
        ),
{
    let (flag, content) = tool_result_fields(result);
    let is_error = match flag {
        Some(b) => b,
        None => false,
    };
    let parts = match content {
        Some(p) => p,
        None => Vec::new(),
    };
    proof {
        if tool_result_parts(*result).1 is None {
            assert(parts@.map_values(|p: (Option<String>, Option<String>)| part_view(p)) =~= Seq::<(Option<Seq<char>>, Option<Seq<char>>)>::empty());
        }
    }
    format_tool_result_text(is_error, &parts)
}

// ─── Dispatch messages ────────────────────────────────────────────────────

/// The error returned for a name that is not a well-formed MCP tool name.
pub fn malformed_mcp_name_error(name: &str) -> (r: String)
    ensures
        r@ == "Error: malformed MCP tool name `"@ + name@ + "`"@,
{
    let mut out: Vec<char> = Vec::new();
    push_str(&mut out, "Error: malformed MCP tool name `");
    push_str(&mut out, name);
    push_str(&mut out, "`");
    string_of(&out)
}

/// The error returned when the named server has no live client.
pub fn mcp_not_connected_error(server: &str) -> (r: String)
    ensures
        r@ == "Error: MCP server `"@ + server@ + "` is not connected"@,
{
    let mut out: Vec<char> = Vec::new();
    push_str(&mut out, "Error: MCP server `");
    push_str(&mut out, server);
    push_str(&mut out, "` is not connected");
    string_of(&out)
}

/// The error returned when a tool call fails in transport or protocol.
pub fn mcp_call_failed_error(server: &str, tool: &str, detail: &str) -> (r: String)
    ensures
        r@ == "Error: MCP `"@ + server@ + "` tool `"@ + tool@ + "` failed: "@ + detail@,
{
    let mut out: Vec<char> = Vec::new();
    push_str(&mut out, "Error: MCP `");
    push_str(&mut out, server);
    push_str(&mut out, "` tool `");
    push_str(&mut out, tool);
    push_str(&mut out, "` failed: ");
    push_str(&mut out, detail);
    string_of(&out)
}

// ─── Requests ─────────────────────────────────────────────────────────────

/// How the wait for an answer to a request ended.
#[derive(Debug)]
pub enum CallOutcome {
    /// The reader task routed a message to the caller.
    Received(InboundMessage),
    /// The reader task dropped the answer channel: the server exited.
    Closed,
    /// No answer came within the timeout, in seconds.
    TimedOut(u64),
}

/// What a request returns for each way the wait can end: the `result` of
/// a response, the message of an error answer, or a transport error.
pub fn call_result(outcome: CallOutcome) -> (r: Result<serde_json::Value, String>)
    ensures
        match outcome {
            CallOutcome::Received(InboundMessage::Response { result, .. }) => r == Ok::<
                serde_json::Value,
                String,
            >(result),
            CallOutcome::Received(InboundMessage::ResponseError { message, .. }) => r matches Err(e)
                && e@ == message@,
            CallOutcome::Received(_) => r matches Err(e) && e@
                == "unexpected non-response message routed to caller"@,
            CallOutcome::Closed => r matches Err(e) && e@ == "server connection closed before responding"@,
            CallOutcome::TimedOut(secs) => r matches Err(e) && e@ == "call timed out after "@
                + crate::text::decimal(secs as nat) + "s"@,
        },
{
    match outcome {
        CallOutcome::Received(InboundMessage::Response { result, .. }) => Ok(result),
        CallOutcome::Received(InboundMessage::ResponseError { message, .. }) => Err(message),
        CallOutcome::Received(_) => Err(
            crate::text::owned("unexpected non-response message routed to caller"),
        ),
        CallOutcome::Closed => Err(crate::text::owned("server connection closed before responding")),
        CallOutcome::TimedOut(secs) => {
            let mut out: Vec<char> = Vec::new();
            push_str(&mut out, "call timed out after ");
            let d = crate::text::decimal_exec(secs);
            push_chars(&mut out, &d);
            push_str(&mut out, "s");
            Err(string_of(&out))
        },
    }
}

/// A handshake step that failed, as reported to the user: the step, then
/// the error.
pub fn handshake_error(step: &str, detail: &str) -> (r: String)
    ensures
        r@ == step@ + " failed: "@ + detail@,
{
    let mut out: Vec<char> = Vec::new();
    push_str(&mut out, step);
    push_str(&mut out, " failed: ");
    push_str(&mut out, detail);
    string_of(&out)
}

/// The server and tool an `mcp__<server>__<tool>` call goes to, or the
/// error returned for a malformed name.
pub fn mcp_dispatch_target(name: &str) -> (r: Result<(String, String), String>)
    ensures
        match (r, split_mcp_spec(name@)) {
            (Ok((s, t)), Some((sv, tv))) => s@ == sv && t@ == tv,
            (Err(e), None) => e@ == "Error: malformed MCP tool name `"@ + name@ + "`"@,
            _ => false,
        },
{
    match split_mcp_tool_name(name) {
        Some((server, tool)) => Ok((crate::text::owned(server), crate::text::owned(tool))),
        None => Err(malformed_mcp_name_error(name)),
    }
}

// ─── Servers ──────────────────────────────────────────────────────────────

/// The configured server named `name`, or the error shown when there is
/// none.
pub fn find_server_config(servers: &Vec<crate::config::McpServerConfig>, name: &str) -> (r: Result<usize, String>)
    ensures
        r matches Ok(i) ==> i < servers@.len() && servers@[i as int].name@ == name@ && forall|j: int|
            0 <= j < i ==> (#[trigger] servers@[j]).name@ != name@,
        r is Err ==> forall|j: int| 0 <= j < servers@.len() ==> (#[trigger] servers@[j]).name@ != name@,
        r matches Err(e) ==> e@ == "no MCP server named `"@ + name@ + "` in config"@,
{
    let mut i: usize = 0;
    while i < servers.len()
        invariant
            i <= servers@.len(),
            forall|j: int| 0 <= j < i ==> (#[trigger] servers@[j]).name@ != name@,
        decreases servers@.len() - i,
    {
        if eq_str(&chars_of(servers[i].name.as_str()), name) {
            return Ok(i);
        }
        i = i + 1;
    }
    let mut out: Vec<char> = Vec::new();
    push_str(&mut out, "no MCP server named `");
    push_str(&mut out, name);
    push_str(&mut out, "` in config");
    Err(string_of(&out))
}

/// The status of a configured server: connected with its tool count when
/// a live client exists, otherwise disconnected with no tools; the last
/// recorded error either way.
pub fn server_status(
    cfg: &crate::config::McpServerConfig,
    live_tool_count: Option<usize>,
    last_error: Option<String>,
) -> (r: McpServerStatus)
    ensures
        r.name@ == cfg.name@,
        r.command@ == cfg.command@,
        r.args@ == cfg.args@,
        r.connected == live_tool_count is Some,
        r.tool_count == match live_tool_count {
            Some(n) => n,
            None => 0,
        },
        r.last_error == last_error,
{
    let (connected, tool_count) = match live_tool_count {
        Some(n) => (true, n),
        None => (false, 0),
    };
    let mut args: Vec<String> = Vec::new();
    let mut i: usize = 0;
    while i < cfg.args.len()
        invariant
            i <= cfg.args@.len(),
            args@ == cfg.args@.take(i as int),
        decreases cfg.args@.len() - i,
    {
        args.push(cfg.args[i].clone());
        i = i + 1;
        assert(args@ =~= cfg.args@.take(i as int));
    }
    assert(cfg.args@.take(cfg.args@.len() as int) =~= cfg.args@);
    McpServerStatus {
        name: cfg.name.clone(),
        command: cfg.command.clone(),
        args,
        connected,
        tool_count,
        last_error,
    }
}

/// The registry of connected MCP servers: a client per server name, and
/// the last connect error per server name (kept after the client is gone).
pub struct ServerRegistry<C> {
    clients: KeyedStore<C>,
    last_errors: KeyedStore<String>,
}

/// The abstract state of a registry: clients and last errors by name.
pub struct RegistryView<C> {
    pub clients: Map<Seq<char>, C>,
    pub errors: Map<Seq<char>, Seq<char>>,
}

/// A client connected under `name`: it replaces any previous client and
/// clears the server's last error.
pub open spec fn registry_connect_spec<C>(v: RegistryView<C>, name: Seq<char>, client: C) -> RegistryView<C> {
    RegistryView { clients: v.clients.insert(name, client), errors: v.errors.remove(name) }
}

/// The client of `name` removed; its last error stays.
pub open spec fn registry_disconnect_spec<C>(v: RegistryView<C>, name: Seq<char>) -> RegistryView<C> {
    RegistryView { clients: v.clients.remove(name), errors: v.errors }
}

/// A connect failure recorded for `name`.
pub open spec fn registry_record_spec<C>(v: RegistryView<C>, name: Seq<char>, message: Seq<char>) -> RegistryView<C> {
    RegistryView { clients: v.clients, errors: v.errors.insert(name, message) }
}

impl<C> ServerRegistry<C> {
    /// The registry's clients and last errors.
    pub closed spec fn view(&self) -> RegistryView<C> {
        RegistryView {
            clients: self.clients.view(),
            errors: self.last_errors.view().map_values(|s: String| s@),
        }
    }

    /// The names with a live client, in the order they first connected.
    pub closed spec fn client_order(&self) -> Seq<Seq<char>> {
        self.clients.key_order()
    }

    /// An empty registry.
    pub fn new() -> (r: Self)
        ensures
            r.view().clients == Map::<Seq<char>, C>::empty(),
            r.view().errors == Map::<Seq<char>, Seq<char>>::empty(),
    {
        let r = ServerRegistry { clients: KeyedStore::new(), last_errors: KeyedStore::new() };
        assert(r.view().errors =~= Map::<Seq<char>, Seq<char>>::empty());
        r
    }

    /// Installs the client of server `name`, replacing (and handing back,
    /// to be disconnected) any previous one, and clears the server's last
    /// error.
    pub fn insert_client(&mut self, name: String, client: C) -> (previous: Option<C>)
        ensures
            final(self).view() == registry_connect_spec(old(self).view(), name@, client),
            old(self).view().clients.contains_key(name@) ==> (previous matches Some(p) && p == old(
                self,
            ).view().clients[name@]),
            !old(self).view().clients.contains_key(name@) ==> previous is None,
    {
        let key = name.clone();
        let ghost errs = self.last_errors.view();
        let previous = self.clients.insert(name, client);
        let _ = self.last_errors.remove(key.as_str());
        assert(self.last_errors.view().map_values(|s: String| s@) =~= errs.map_values(|s: String| s@).remove(
            key@,
        ));
        previous
    }

    /// Removes the client of server `name`, handing it back to be
    /// disconnected. The server's last error is kept.
    pub fn remove_client(&mut self, name: &str) -> (removed: Option<C>)
        ensures
            final(self).view() == registry_disconnect_spec(old(self).view(), name@),
            old(self).view().clients.contains_key(name@) ==> (removed matches Some(p) && p == old(
                self,
            ).view().clients[name@]),
            !old(self).view().clients.contains_key(name@) ==> removed is None,
    {
        self.clients.remove(name)
    }

    /// Records the last connect error of server `name`.
    pub fn record_error(&mut self, name: &str, message: String)
        ensures
            final(self).view() == registry_record_spec(old(self).view(), name@, message@),
    {
        let ghost errs = self.last_errors.view();
        let ghost mv = message@;
        let _ = self.last_errors.insert(crate::text::owned(name), message);
        assert(self.last_errors.view().map_values(|s: String| s@) =~= errs.map_values(|s: String| s@).insert(
            name@,
            mv,
        ));
    }

    /// The last connect error of server `name`, if any.
    pub fn last_error(&self, name: &str) -> (r: Option<String>)
        ensures
            r is Some <==> self.view().errors.contains_key(name@),
            r matches Some(e) ==> e@ == self.view().errors[name@],
    {
        match self.last_errors.get(name) {
            Some(e) => Some(e.clone()),
            None => None,
        }
    }

    /// The live client of server `name`, if any.
    pub fn get_client(&self, name: &str) -> (r: Option<&C>)
        ensures
            r is Some <==> self.view().clients.contains_key(name@),
            r matches Some(c) ==> *c == self.view().clients[name@],
    {
        self.clients.get(name)
    }

    /// Whether server `name` has a live client.
    pub fn is_connected(&self, name: &str) -> (b: bool)
        ensures
            b == self.view().clients.contains_key(name@),
    {
        self.clients.contains(name)
    }

    /// The names of the servers with a live client.
    pub fn client_names(&self) -> (r: Vec<String>)
        ensures
            r@.map_values(|s: String| s@) == self.client_order(),
    {
        self.clients.keys()
    }

    /// The live clients, in the order of `client_names`.
    pub fn clients(&self) -> (r: Vec<&C>)
        ensures
            r@.len() == self.client_order().len(),
            forall|i: int| 0 <= i < r@.len() ==> *r@[i] == self.view().clients[#[trigger] self.client_order()[i]],
    {
        self.clients.values()
    }
}

/// A successful connect leaves no stale error behind, and a disconnect
/// keeps the error the Settings panel shows: connecting `name` clears its
/// last error, while disconnecting it keeps every last error.
pub proof fn law_connect_clears_error_disconnect_keeps_it<C>(v: RegistryView<C>, name: Seq<char>, client: C)
    ensures
        !registry_connect_spec(v, name, client).errors.contains_key(name),
        registry_connect_spec(v, name, client).clients[name] == client,
        registry_disconnect_spec(v, name).errors == v.errors,
        !registry_disconnect_spec(v, name).clients.contains_key(name),
{
}

/// A recorded error is what the status reports until the next successful
/// connect of that server.
pub proof fn law_recorded_error_reported<C>(v: RegistryView<C>, name: Seq<char>, message: Seq<char>, other: Seq<char>)
    ensures
        registry_record_spec(v, name, message).errors[name] == message,
        other != name ==> registry_disconnect_spec(registry_record_spec(v, name, message), other).errors[name]
            == message,
{
}

} // verus!
