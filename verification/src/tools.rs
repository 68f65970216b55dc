//! The built-in tool catalog: which tools need the user's approval, how a
//! tool name is routed, and the pure parts of the tools themselves (glob
//! pattern joining, output budgets and truncation markers, the fetch_url
//! URL and host policy, article formatting).
use vstd::prelude::*;
use vstd::string::StringSliceAdditionalSpecFns;
use vstd::utf8::{decode_utf8, encode_utf8, valid_utf8};
use crate::mcp::{is_mcp_name_spec, is_mcp_tool_name};
use crate::ip_literal::{
    is_digit_in, dotted_quad, ip_literal, law_dotted_quad_is_read, law_mapped_quad_is_read, lemma_dotted_quad_text, mapped_quad,
    parse_ip_literal,
};
use crate::chat::trim_end_char;
use crate::text::{
    join, push_joined, starts_with, strings_view, byte_len, chars_of, decimal, decimal_exec, eq_str, ends_with, lower, lower_exec, owned, push_chars,
    push_str, signed_decimal, signed_decimal_exec, slice_chars, string_of, trim, trim_exec,
};

verus! {

broadcast use vstd::string::group_string_axioms;

/// Maximum bytes of text returned by `read_file` before truncation.
pub const READ_FILE_MAX_BYTES: usize = 50_000;

/// Maximum directory entries returned by `list_dir`.
pub const LIST_DIR_MAX_ENTRIES: usize = 500;

/// Maximum paths returned by `glob`.
pub const GLOB_MAX_RESULTS: usize = 200;

/// Maximum matches returned by `grep_content`.
pub const GREP_MAX_MATCHES: usize = 100;

/// Maximum bytes kept from each of a command's stdout and stderr.
pub const SHELL_OUTPUT_MAX_BYTES: usize = 10_000;

/// Hard timeout on one `run_shell` invocation, in seconds.
pub const SHELL_TIMEOUT_SECS: u64 = 30;

/// Hard cap on the raw response body bytes of one `fetch_url`.
pub const FETCH_MAX_BYTES: usize = 5 * 1024 * 1024;

/// Hard cap on the extracted text returned to the model by `fetch_url`.
pub const FETCH_RESULT_MAX_BYTES: usize = 50_000;

// ─── Catalog ──────────────────────────────────────────────────────────────

/// The built-in tools, in catalog order.
#[derive(Clone, Copy, Debug, PartialEq, Eq, Structural)]
pub enum BuiltinTool {
    ReadFile,
    ListDir,
    Glob,
    GrepContent,
    ActiveWindow,
    ListWindows,
    MonitorInfo,
    ReadClipboard,
    WriteFile,
    DeleteFile,
    RunShell,
    WriteClipboard,
    OpenUrl,
    LaunchApp,
    FetchUrl,
}

/// The name under which the model calls a built-in tool.
pub open spec fn builtin_name(t: BuiltinTool) -> Seq<char> {
    match t {
        BuiltinTool::ReadFile => "read_file"@,
        BuiltinTool::ListDir => "list_dir"@,
        BuiltinTool::Glob => "glob"@,
        BuiltinTool::GrepContent => "grep_content"@,
        BuiltinTool::ActiveWindow => "active_window"@,
        BuiltinTool::ListWindows => "list_windows"@,
        BuiltinTool::MonitorInfo => "monitor_info"@,
        BuiltinTool::ReadClipboard => "read_clipboard"@,
        BuiltinTool::WriteFile => "write_file"@,
        BuiltinTool::DeleteFile => "delete_file"@,
        BuiltinTool::RunShell => "run_shell"@,
        BuiltinTool::WriteClipboard => "write_clipboard"@,
        BuiltinTool::OpenUrl => "open_url"@,
        BuiltinTool::LaunchApp => "launch_app"@,
        BuiltinTool::FetchUrl => "fetch_url"@,
    }
}

/// The built-in tools that change the user's machine or reach the network.
pub open spec fn builtin_needs_approval(t: BuiltinTool) -> bool {
    match t {
        BuiltinTool::WriteFile | BuiltinTool::DeleteFile | BuiltinTool::RunShell
        | BuiltinTool::WriteClipboard | BuiltinTool::OpenUrl | BuiltinTool::LaunchApp
        | BuiltinTool::FetchUrl => true,
        _ => false,
    }
}

/// A tool call by this name pauses for the user's approval: every MCP
/// tool, and the built-ins that write, execute or reach the network.
pub open spec fn is_destructive_spec(name: Seq<char>) -> bool {
    is_mcp_name_spec(name) || name == "write_file"@ || name == "delete_file"@ || name
        == "run_shell"@ || name == "write_clipboard"@ || name == "open_url"@ || name
        == "launch_app"@ || name == "fetch_url"@
}

impl BuiltinTool {
    /// The built-in tool called `name`, if there is one.
    pub fn from_name(name: &str) -> (r: Option<BuiltinTool>)
        ensures
            r matches Some(t) ==> builtin_name(t) == name@,
            r is None ==> forall|t: BuiltinTool| builtin_name(t) != name@,
    {
        let v = chars_of(name);
        if eq_str(&v, "read_file") {
            Some(BuiltinTool::ReadFile)
        } else if eq_str(&v, "list_dir") {
            Some(BuiltinTool::ListDir)
        } else if eq_str(&v, "glob") {
            Some(BuiltinTool::Glob)
        } else if eq_str(&v, "grep_content") {
            Some(BuiltinTool::GrepContent)
        } else if eq_str(&v, "active_window") {
            Some(BuiltinTool::ActiveWindow)
        } else if eq_str(&v, "list_windows") {
            Some(BuiltinTool::ListWindows)
        } else if eq_str(&v, "monitor_info") {
            Some(BuiltinTool::MonitorInfo)
        } else if eq_str(&v, "read_clipboard") {
            Some(BuiltinTool::ReadClipboard)
        } else if eq_str(&v, "write_file") {
            Some(BuiltinTool::WriteFile)
        } else if eq_str(&v, "delete_file") {
            Some(BuiltinTool::DeleteFile)
        } else if eq_str(&v, "run_shell") {
            Some(BuiltinTool::RunShell)
        } else if eq_str(&v, "write_clipboard") {
            Some(BuiltinTool::WriteClipboard)
        } else if eq_str(&v, "open_url") {
            Some(BuiltinTool::OpenUrl)
        } else if eq_str(&v, "launch_app") {
            Some(BuiltinTool::LaunchApp)
        } else if eq_str(&v, "fetch_url") {
            Some(BuiltinTool::FetchUrl)
        } else {
            None
        }
    }

    /// Whether calls of this tool wait for the user's approval.
    pub fn needs_approval(&self) -> (b: bool)
        ensures
            b == builtin_needs_approval(*self),
    {
        match self {
            BuiltinTool::WriteFile | BuiltinTool::DeleteFile | BuiltinTool::RunShell
            | BuiltinTool::WriteClipboard | BuiltinTool::OpenUrl | BuiltinTool::LaunchApp
            | BuiltinTool::FetchUrl => true,
            _ => false,
        }
    }
}

/// Returns true for tools that mutate the user's machine in any visible
/// way or reach out across the network; the tool loop asks the user
/// before dispatching these. Every `mcp__<server>__<tool>` counts.
pub fn is_destructive(name: &str) -> (b: bool)
    ensures
        b == is_destructive_spec(name@),
{
    if is_mcp_tool_name(name) {
        return true;
    }
    let v = chars_of(name);
    eq_str(&v, "write_file") || eq_str(&v, "delete_file") || eq_str(&v, "run_shell") || eq_str(
        &v,
        "write_clipboard",
    ) || eq_str(&v, "open_url") || eq_str(&v, "launch_app") || eq_str(&v, "fetch_url")
}

/// Where a tool call goes.
#[derive(Clone, Copy, Debug, PartialEq, Eq, Structural)]
pub enum ToolRoute {
    /// An `mcp__<server>__<tool>` name, answered by the MCP registry.
    Mcp,
    /// One of the built-in tools.
    Builtin(BuiltinTool),
    /// No tool by that name.
    Unknown,
}

/// The route of a tool call named `name`: MCP names first, then the
/// built-ins, otherwise unknown.
pub open spec fn route_tool_spec(name: Seq<char>) -> ToolRoute {
    if is_mcp_name_spec(name) {
        ToolRoute::Mcp
    } else if exists|t: BuiltinTool| builtin_name(t) == name {
        ToolRoute::Builtin(choose|t: BuiltinTool| builtin_name(t) == name)
    } else {
        ToolRoute::Unknown
    }
}

/// Decides where the tool call `name` is dispatched.
pub fn route_tool(name: &str) -> (r: ToolRoute)
    ensures
        r == route_tool_spec(name@),
        is_mcp_name_spec(name@) ==> r == ToolRoute::Mcp,
        !is_mcp_name_spec(name@) ==> match r {
            ToolRoute::Builtin(t) => builtin_name(t) == name@,
            ToolRoute::Unknown => forall|t: BuiltinTool| builtin_name(t) != name@,
            ToolRoute::Mcp => false,
        },
{
    if is_mcp_tool_name(name) {
        return ToolRoute::Mcp;
    }
    match BuiltinTool::from_name(name) {
        Some(t) => {
            proof {
                let c = choose|u: BuiltinTool| builtin_name(u) == name@;
                lemma_builtin_names_distinct(c, t);
            }
            ToolRoute::Builtin(t)
        },
        None => ToolRoute::Unknown,
    }
}

/// A built-in tool's name is never an MCP name, so its route is the tool
/// itself, and it needs approval exactly when the catalog says so.
pub proof fn law_builtin_route_and_approval(t: BuiltinTool)
    ensures
        !is_mcp_name_spec(builtin_name(t)),
        is_destructive_spec(builtin_name(t)) == builtin_needs_approval(t),
{
    reveal_strlit("mcp__");
    reveal_strlit("read_file");
    reveal_strlit("list_dir");
    reveal_strlit("glob");
    reveal_strlit("grep_content");
    reveal_strlit("active_window");
    reveal_strlit("list_windows");
    reveal_strlit("monitor_info");
    reveal_strlit("read_clipboard");
    reveal_strlit("write_file");
    reveal_strlit("delete_file");
    reveal_strlit("run_shell");
    reveal_strlit("write_clipboard");
    reveal_strlit("open_url");
    reveal_strlit("launch_app");
    reveal_strlit("fetch_url");
    let n = builtin_name(t);
    let ds = seq!["write_file"@, "delete_file"@, "run_shell"@, "write_clipboard"@, "open_url"@,
        "launch_app"@, "fetch_url"@];
    assert forall|i: int| 0 <= i < 7 && !builtin_needs_approval(t) implies n != #[trigger] ds[i] by {
        if n == ds[i] {
            assert(n[0] == ds[i][0] && n[1] == ds[i][1] && n.len() == ds[i].len());
        }
    }
    assert(ds[0] == "write_file"@ && ds[1] == "delete_file"@ && ds[2] == "run_shell"@);
    assert(ds[3] == "write_clipboard"@ && ds[4] == "open_url"@ && ds[5] == "launch_app"@);
    assert(ds[6] == "fetch_url"@);
    assert(!crate::text::starts_with(n, "mcp__"@)) by {
        if crate::text::starts_with(n, "mcp__"@) {
            assert(n.take(5)[0] == n[0]);
            assert(n.take(5)[1] == n[1]);
        }
    }
}

/// Every MCP tool call needs approval, whatever the server or tool.
pub proof fn law_mcp_tools_need_approval(name: Seq<char>)
    requires
        is_mcp_name_spec(name),
    ensures
        is_destructive_spec(name),
{
}

/// The text of the error returned for an unknown tool name.
pub fn unknown_tool_error(name: &str) -> (e: String)
    ensures
        e@ == "Unknown tool: "@ + name@,
{
    let mut out: Vec<char> = Vec::new();
    push_str(&mut out, "Unknown tool: ");
    push_str(&mut out, name);
    string_of(&out)
}

/// How a tool failure is fed back to the model: `Error: ` and the message,
/// so the model can react instead of the whole loop aborting.
pub fn tool_error_result(message: &str) -> (r: String)
    ensures
        r@ == "Error: "@ + message@,
{
    let mut out: Vec<char> = Vec::new();
    push_str(&mut out, "Error: ");
    push_str(&mut out, message);
    string_of(&out)
}

/// What `active_window` answers where the Win32 desktop API is missing
/// (every platform but Windows); on Windows the app reads the foreground
/// window and formats it with `format_active_window`.
pub fn active_window() -> (r: Result<String, String>)
    ensures
        r matches Err(e) && e@ == "active_window is only implemented on Windows"@,
{
    Err(owned("active_window is only implemented on Windows"))
}

/// What `list_windows` answers where the Win32 desktop API is missing
/// (every platform but Windows); on Windows the app enumerates the visible
/// windows and formats them with `format_window_list`.
pub fn list_windows() -> (r: Result<String, String>)
    ensures
        r matches Err(e) && e@ == "list_windows is only implemented on Windows"@,
{
    Err(owned("list_windows is only implemented on Windows"))
}

/// What `monitor_info` answers where the Win32 desktop API is missing
/// (every platform but Windows); on Windows the app enumerates the monitors
/// and formats them with `format_monitor_line` and `format_monitor_list`.
pub fn monitor_info() -> (r: Result<String, String>)
    ensures
        r matches Err(e) && e@ == "monitor_info is only implemented on Windows"@,
{
    Err(owned("monitor_info is only implemented on Windows"))
}

// ─── Desktop introspection: formatting ────────────────────────────────────

/// Maximum windows listed by `list_windows`.
pub const LIST_WINDOWS_MAX: usize = 100;

/// One top-level visible window as the desktop reports it: its title, the
/// id of the process that owns it, and that process's executable name when
/// it could be read.
pub struct WindowInfo {
    pub title: String,
    pub pid: u32,
    pub process: Option<String>,
}

/// The process name shown for a window: the executable's name, or
/// `<unknown>` when it could not be read.
pub open spec fn process_label(p: Option<String>) -> Seq<char> {
    match p {
        Some(s) => s@,
        None => "<unknown>"@,
    }
}

/// A window is listed only when its title holds something besides
/// whitespace.
pub open spec fn is_listed_window(w: WindowInfo) -> bool {
    trim(w.title@).len() > 0
}

/// The listed windows, in the order the desktop reported them.
pub open spec fn listed_windows(s: Seq<WindowInfo>) -> Seq<WindowInfo>
    decreases s.len(),
{
    if s.len() == 0 {
        Seq::<WindowInfo>::empty()
    } else if is_listed_window(s.last()) {
        listed_windows(s.drop_last()).push(s.last())
    } else {
        listed_windows(s.drop_last())
    }
}

/// One `list_windows` line: the pid right-aligned in 6 columns in square
/// brackets, the process name, an em dash and the title.
pub open spec fn window_line(w: WindowInfo) -> Seq<char> {
    "["@ + pad_left(decimal(w.pid as nat), 6) + "] "@ + process_label(w.process) + " \u{2014} "@
        + w.title@ + "\n"@
}

/// The lines of a sequence of windows.
pub open spec fn window_lines(s: Seq<WindowInfo>) -> Seq<char>
    decreases s.len(),
{
    if s.len() == 0 {
        Seq::<char>::empty()
    } else {
        window_lines(s.drop_last()) + window_line(s.last())
    }
}

/// The `list_windows` result: a line for each of the first
/// `LIST_WINDOWS_MAX` listed windows, a note when there are more, or
/// `(no visible windows)` when there is none.
pub open spec fn window_list_spec(windows: Seq<WindowInfo>) -> Seq<char> {
    let kept = listed_windows(windows);
    let total = kept.len();
    let out = if total > LIST_WINDOWS_MAX {
        window_lines(kept.take(LIST_WINDOWS_MAX as int))
            + "\n[truncated: showing first 100 of "@ + decimal(total) + " windows]\n"@
    } else {
        window_lines(kept)
    };
    if out.len() == 0 {
        "(no visible windows)"@
    } else {
        out
    }
}

/// Appends the decimal form of `n`, right-aligned in `width` columns.
fn push_padded_decimal(out: &mut Vec<char>, n: u64, width: usize)
    ensures
        final(out)@ == old(out)@ + pad_left(decimal(n as nat), width as nat),
{
    let ghost start = out@;
    let d = decimal_exec(n);
    let mut k = d.len();
    while k < width
        invariant
            d.len() <= k,
            k <= width || k == d.len(),
            out@ == start + Seq::new((k - d.len()) as nat, |i: int| ' '),
        decreases width - k,
    {
        out.push(' ');
        k = k + 1;
        assert(out@ =~= start + Seq::new((k - d.len()) as nat, |i: int| ' '));
    }
    push_chars(out, &d);
    assert(out@ =~= start + pad_left(decimal(n as nat), width as nat));
}

/// Appends the process name shown for a window.
fn push_process_label(out: &mut Vec<char>, p: &Option<String>)
    ensures
        final(out)@ == old(out)@ + process_label(*p),
{
    match p {
        Some(s) => push_str(out, s.as_str()),
        None => push_str(out, "<unknown>"),
    }
}

fn push_window_line(out: &mut Vec<char>, w: &WindowInfo)
    ensures
        final(out)@ == old(out)@ + window_line(*w),
{
    let ghost start = out@;
    push_str(out, "[");
    push_padded_decimal(out, w.pid as u64, 6);
    push_str(out, "] ");
    push_process_label(out, &w.process);
    push_str(out, " \u{2014} ");
    push_str(out, w.title.as_str());
    push_str(out, "\n");
    assert(out@ =~= start + window_line(*w));
}

/// Whether a window's title holds something besides whitespace.
fn window_is_listed(w: &WindowInfo) -> (b: bool)
    ensures
        b == is_listed_window(*w),
{
    let t = chars_of(w.title.as_str());
    let tt = trim_exec(&t);
    tt.len() > 0
}

/// Formats the desktop's visible windows for the model: windows with a
/// blank title are skipped, at most `LIST_WINDOWS_MAX` are listed, and a
/// note gives the total when there are more.
pub fn format_window_list(windows: &Vec<WindowInfo>) -> (r: String)
    ensures
        r@ == window_list_spec(windows@),
{
    let mut out: Vec<char> = Vec::new();
    let mut count: usize = 0;
    let mut i: usize = 0;
    while i < windows.len()
        invariant
            i <= windows.len(),
            count == listed_windows(windows@.take(i as int)).len(),
            count <= i,
            out@ == window_lines(
                listed_windows(windows@.take(i as int)).take(
                    (if count < LIST_WINDOWS_MAX { count } else { LIST_WINDOWS_MAX }) as int,
                ),
            ),
        decreases windows.len() - i,
    {
        let ghost kept = listed_windows(windows@.take(i as int));
        assert(windows@.take(i + 1).drop_last() =~= windows@.take(i as int));
        assert(windows@.take(i + 1).last() == windows@[i as int]);
        if window_is_listed(&windows[i]) {
            let ghost kept2 = kept.push(windows@[i as int]);
            assert(listed_windows(windows@.take(i + 1)) == kept2);
            if count < LIST_WINDOWS_MAX {
                push_window_line(&mut out, &windows[i]);
                assert(kept.take(count as int) =~= kept);
                assert(kept2.take(count + 1) =~= kept2);
                assert(kept2.drop_last() =~= kept);
            } else {
                assert(kept2.take(LIST_WINDOWS_MAX as int) =~= kept.take(LIST_WINDOWS_MAX as int));
            }
            count = count + 1;
        } else {
            assert(listed_windows(windows@.take(i + 1)) == kept);
        }
        i = i + 1;
    }
    assert(windows@.take(windows.len() as int) =~= windows@);
    let ghost kept = listed_windows(windows@);
    if count > LIST_WINDOWS_MAX {
        push_str(&mut out, "\n[truncated: showing first 100 of ");
        let d = decimal_exec(count as u64);
        push_chars(&mut out, &d);
        push_str(&mut out, " windows]\n");
    } else {
        assert(kept.take(count as int) =~= kept);
    }
    if out.len() == 0 {
        return owned("(no visible windows)");
    }
    string_of(&out)
}

/// One `monitor_info` line: `* ` for the primary monitor (two spaces for
/// the others), the size `WxH`, the position of its top-left corner, and
/// `  [primary]` for the primary monitor.
pub open spec fn monitor_line_spec(left: i32, top: i32, right: i32, bottom: i32, primary: bool) -> Seq<char> {
    (if primary { "* "@ } else { "  "@ }) + signed_decimal(right - left) + "x"@
        + signed_decimal(bottom - top) + " @ ("@ + signed_decimal(left as int) + ", "@
        + signed_decimal(top as int) + ")"@ + (if primary { "  [primary]"@ } else { Seq::<char>::empty() })
}

/// Formats one monitor from its rectangle in desktop coordinates and
/// whether it is the primary monitor.
pub fn format_monitor_line(left: i32, top: i32, right: i32, bottom: i32, primary: bool) -> (r: String)
    ensures
        r@ == monitor_line_spec(left, top, right, bottom, primary),
{
    let mut out: Vec<char> = Vec::new();
    if primary {
        push_str(&mut out, "* ");
    } else {
        push_str(&mut out, "  ");
    }
    let w = signed_decimal_exec(right as i64 - left as i64);
    push_chars(&mut out, &w);
    push_str(&mut out, "x");
    let h = signed_decimal_exec(bottom as i64 - top as i64);
    push_chars(&mut out, &h);
    push_str(&mut out, " @ (");
    let x = signed_decimal_exec(left as i64);
    push_chars(&mut out, &x);
    push_str(&mut out, ", ");
    let y = signed_decimal_exec(top as i64);
    push_chars(&mut out, &y);
    push_str(&mut out, ")");
    if primary {
        push_str(&mut out, "  [primary]");
    }
    assert(out@ =~= monitor_line_spec(left, top, right, bottom, primary));
    string_of(&out)
}

/// The `monitor_info` result: the monitor lines joined by newlines, or
/// `(no monitors found)` when there is none.
pub open spec fn monitor_list_spec(lines: Seq<Seq<char>>) -> Seq<char> {
    if lines.len() == 0 {
        "(no monitors found)"@
    } else {
        join(lines, "\n"@)
    }
}

/// Formats the monitor lines for the model.
pub fn format_monitor_list(lines: &Vec<String>) -> (r: String)
    ensures
        r@ == monitor_list_spec(strings_view(lines@)),
{
    if lines.len() == 0 {
        return owned("(no monitors found)");
    }
    let mut out: Vec<char> = Vec::new();
    push_joined(&mut out, lines, 0, lines.len(), "\n");
    assert(lines@.subrange(0, lines.len() as int) =~= lines@);
    assert(out@ =~= join(strings_view(lines@), "\n"@));
    string_of(&out)
}

/// The `active_window` result: `(no foreground window)`, or the window's
/// title, process name and pid on three lines.
pub open spec fn active_window_spec(w: Option<(String, u32, Option<String>)>) -> Seq<char> {
    match w {
        None => "(no foreground window)"@,
        Some((title, pid, process)) => "title: "@ + title@ + "\nprocess: "@ + process_label(process)
            + "\npid: "@ + decimal(pid as nat),
    }
}

/// Formats the foreground window (its title, owning process id and
/// executable name) for the model.
pub fn format_active_window(w: Option<(String, u32, Option<String>)>) -> (r: String)
    ensures
        r@ == active_window_spec(w),
{
    match w {
        None => owned("(no foreground window)"),
        Some((title, pid, process)) => {
            let mut out: Vec<char> = Vec::new();
            push_str(&mut out, "title: ");
            push_str(&mut out, title.as_str());
            push_str(&mut out, "\nprocess: ");
            push_process_label(&mut out, &process);
            push_str(&mut out, "\npid: ");
            let d = decimal_exec(pid as u64);
            push_chars(&mut out, &d);
            string_of(&out)
        },
    }
}

/// Whether `c` separates the parts of a Windows or Unix path.
pub open spec fn is_path_sep(c: char) -> bool {
    c == '\\' || c == '/'
}

/// The part of `s` after its last `\` or `/` (all of `s` when it has
/// neither).
pub open spec fn file_name_part(s: Seq<char>) -> Seq<char>
    decreases s.len(),
{
    if s.len() == 0 {
        s
    } else if is_path_sep(s.last()) {
        Seq::<char>::empty()
    } else {
        file_name_part(s.drop_last()).push(s.last())
    }
}

/// The executable's file name from its full image path: what follows the
/// last `\` or `/`.
pub fn process_file_name(path: &str) -> (r: String)
    ensures
        r@ == file_name_part(path@),
{
    let v = chars_of(path);
    let mut start: usize = 0;
    let mut i: usize = 0;
    while i < v.len()
        invariant
            start <= i <= v.len(),
            v@ == path@,
            file_name_part(v@.take(i as int)) == v@.subrange(start as int, i as int),
        decreases v.len() - i,
    {
        assert(v@.take(i + 1).drop_last() =~= v@.take(i as int));
        assert(v@.take(i + 1).last() == v@[i as int]);
        if v[i] == '\\' || v[i] == '/' {
            start = i + 1;
            assert(v@.subrange(start as int, i + 1) =~= Seq::<char>::empty());
        } else {
            assert(v@.subrange(start as int, i + 1) =~= v@.subrange(start as int, i as int).push(v@[i as int]));
        }
        i = i + 1;
    }
    assert(v@.take(v.len() as int) =~= v@);
    let r = slice_chars(&v, start, v.len());
    string_of(&r)
}

// ─── Glob patterns ────────────────────────────────────────────────────────

/// The view of an optional string.
pub open spec fn opt_str_view(o: Option<&str>) -> Option<Seq<char>> {
    match o {
        Some(s) => Some(s@),
        None => None,
    }
}

/// A glob pattern relative to `root`: the root, a `/` unless the root
/// already ends in a path separator, then the pattern. Without a
/// (non-empty) root the pattern stands alone.
pub open spec fn resolve_pattern_spec(pattern: Seq<char>, root: Option<Seq<char>>) -> Seq<char> {
    match root {
        Some(r) => if r.len() > 0 {
            r + (if r.last() == '/' || r.last() == '\\' { Seq::<char>::empty() } else { "/"@ })
                + pattern
        } else {
            pattern
        },
        None => pattern,
    }
}

/// Joins a glob pattern onto an optional base directory.
pub fn resolve_pattern(pattern: &str, root: Option<&str>) -> (r: String)
    ensures
        r@ == resolve_pattern_spec(pattern@, opt_str_view(root)),
{
    match root {
        Some(rt) => {
            let rv = chars_of(rt);
            if rv.len() == 0 {
                return owned(pattern);
            }
            let mut out: Vec<char> = Vec::new();
            push_chars(&mut out, &rv);
            let last = rv[rv.len() - 1];
            if last == '/' || last == '\\' {
                assert(out@ =~= rt@ + Seq::<char>::empty());
            } else {
                out.push('/');
                assert(out@ =~= rt@ + "/"@) by { reveal_strlit("/"); }
            }
            push_str(&mut out, pattern);
            string_of(&out)
        },
        None => owned(pattern),
    }
}

// ─── Output budgets ───────────────────────────────────────────────────────

/// `s` when its UTF-8 encoding fits in `max` bytes; otherwise its longest
/// prefix within `max` bytes (cut at a character boundary) and a note
/// giving the kept and the total byte counts.
pub open spec fn trim_to_limit_spec(s: Seq<char>, max: usize) -> Seq<char> {
    if byte_len(s) <= max {
        s
    } else {
        utf8_prefix_spec(s, max as int) + "\n[truncated: showing first "@ + decimal(
            boundary_at_or_below(encode_utf8(s), max as int) as nat,
        ) + " of "@ + decimal(byte_len(s) as nat) + " bytes]"@
    }
}

/// Keeps at most `max` bytes of `s`, cut at the last character boundary
/// within them, with a truncation note.
pub fn trim_to_limit(s: &str, max: usize) -> (r: String)
    ensures
        r@ == trim_to_limit_spec(s@, max),
{
    let n = s.len();
    if n <= max {
        return owned(s);
    }
    let (head, cut) = utf8_prefix_within(s, max);
    let mut out = chars_of(head.as_str());
    push_str(&mut out, "\n[truncated: showing first ");
    let d1 = decimal_exec(cut as u64);
    push_chars(&mut out, &d1);
    push_str(&mut out, " of ");
    let d2 = decimal_exec(n as u64);
    push_chars(&mut out, &d2);
    push_str(&mut out, " bytes]");
    string_of(&out)
}

/// The text of a process's exit code: the number, or `?` when the process
/// was ended by a signal.
pub open spec fn exit_code_text(code: Option<i32>) -> Seq<char> {
    match code {
        Some(c) => signed_decimal(c as int),
        None => "?"@,
    }
}

/// The `run_shell` result: the exit code, then each non-empty stream
/// (each kept to `SHELL_OUTPUT_MAX_BYTES`) under its own header, stdout
/// ending in a newline, or `(no output)`.
pub open spec fn shell_output_spec(code: Option<i32>, stdout: Seq<char>, stderr: Seq<char>) -> Seq<
    char,
> {
    let o = trim_to_limit_spec(stdout, SHELL_OUTPUT_MAX_BYTES);
    let e = trim_to_limit_spec(stderr, SHELL_OUTPUT_MAX_BYTES);
    "exit: "@ + exit_code_text(code) + "\n"@ + (if o.len() > 0 {
        "--- stdout ---\n"@ + o + (if ends_with(o, "\n"@) { Seq::<char>::empty() } else { "\n"@ })
    } else {
        Seq::<char>::empty()
    }) + (if e.len() > 0 {
        "--- stderr ---\n"@ + e
    } else {
        Seq::<char>::empty()
    }) + (if o.len() == 0 && e.len() == 0 {
        "(no output)\n"@
    } else {
        Seq::<char>::empty()
    })
}

/// Formats a finished command's exit code and decoded output streams.
pub fn format_shell_output(code: Option<i32>, stdout: &str, stderr: &str) -> (r: String)
    ensures
        r@ == shell_output_spec(code, stdout@, stderr@),
{
    let o = trim_to_limit(stdout, SHELL_OUTPUT_MAX_BYTES);
    let e = trim_to_limit(stderr, SHELL_OUTPUT_MAX_BYTES);
    let ov = chars_of(o.as_str());
    let ev = chars_of(e.as_str());
    let mut out: Vec<char> = Vec::new();
    push_str(&mut out, "exit: ");
    match code {
        Some(c) => {
            let d = signed_decimal_exec(c as i64);
            push_chars(&mut out, &d);
        },
        None => push_str(&mut out, "?"),
    }
    push_str(&mut out, "\n");
    let ghost after_code = out@;
    if ov.len() > 0 {
        push_str(&mut out, "--- stdout ---\n");
        push_chars(&mut out, &ov);
        let nl = chars_of("\n");
        if !crate::text::ends_with_exec(&ov, &nl) {
            push_str(&mut out, "\n");
        }
    }
    let ghost after_out = out@;
    if ev.len() > 0 {
        push_str(&mut out, "--- stderr ---\n");
        push_chars(&mut out, &ev);
    }
    let ghost after_err = out@;
    if ov.len() == 0 && ev.len() == 0 {
        push_str(&mut out, "(no output)\n");
    }
    proof {
        let oo = trim_to_limit_spec(stdout@, SHELL_OUTPUT_MAX_BYTES);
        let ee = trim_to_limit_spec(stderr@, SHELL_OUTPUT_MAX_BYTES);
        let part1: Seq<char> = if oo.len() > 0 {
            "--- stdout ---\n"@ + oo + (if ends_with(oo, "\n"@) { Seq::<char>::empty() } else { "\n"@ })
        } else {
            Seq::<char>::empty()
        };
        let part2: Seq<char> = if ee.len() > 0 { "--- stderr ---\n"@ + ee } else { Seq::<char>::empty() };
        let part3: Seq<char> = if oo.len() == 0 && ee.len() == 0 { "(no output)\n"@ } else { Seq::<char>::empty() };
        assert(after_code == "exit: "@ + exit_code_text(code) + "\n"@);
        assert(after_out =~= after_code + part1);
        assert(after_err =~= after_out + part2);
        assert(out@ =~= after_err + part3);
    }
    string_of(&out)
}

/// Decodes bytes as UTF-8, replacing each invalid sequence with U+FFFD
/// (std's `String::from_utf8_lossy`).
pub uninterp spec fn utf8_lossy(bytes: Seq<u8>) -> Seq<char>;

/// `String::from_utf8_lossy`: the result is named by `utf8_lossy`; valid
/// UTF-8 decodes to exactly its characters, as std documents.
#[verifier::external_body]
fn utf8_lossy_exec(bytes: &[u8]) -> (r: String)
    ensures
        r@ == utf8_lossy(bytes@),
        valid_utf8(bytes@) ==> r@ == decode_utf8(bytes@),
{
    String::from_utf8_lossy(bytes).into_owned()
}

/// Decodes process output or a response body as UTF-8, replacing invalid
/// sequences with U+FFFD; valid UTF-8 decodes to exactly its characters.
pub fn decode_lossy(bytes: &[u8]) -> (r: String)
    ensures
        r@ == utf8_lossy(bytes@),
        valid_utf8(bytes@) ==> r@ == decode_utf8(bytes@),
{
    utf8_lossy_exec(bytes)
}

/// The `read_file` result for a file's bytes: at most the first
/// `READ_FILE_MAX_BYTES`, decoded lossily, with a note when the file is
/// longer.
pub open spec fn read_file_text_spec(bytes: Seq<u8>) -> Seq<char> {
    if bytes.len() > READ_FILE_MAX_BYTES {
        utf8_lossy(bytes.subrange(0, READ_FILE_MAX_BYTES as int))
            + "\n\n[truncated: showing first 50000 of "@ + decimal(bytes.len()) + " bytes]"@
    } else {
        utf8_lossy(bytes)
    }
}

/// Turns the bytes of a file into the text handed back to the model.
pub fn read_file_text(bytes: &[u8]) -> (r: String)
    ensures
        r@ == read_file_text_spec(bytes@),
{
    let total = bytes.len();
    if total <= READ_FILE_MAX_BYTES {
        assert(bytes@.subrange(0, total as int) =~= bytes@);
        return utf8_lossy_exec(bytes);
    }
    let head = vstd::slice::slice_subrange(bytes, 0, READ_FILE_MAX_BYTES);
    let text = utf8_lossy_exec(head);
    let mut out = chars_of(text.as_str());
    push_str(&mut out, "\n\n[truncated: showing first 50000 of ");
    let d = decimal_exec(total as u64);
    push_chars(&mut out, &d);
    push_str(&mut out, " bytes]");
    string_of(&out)
}

// ─── fetch_url: content type ──────────────────────────────────────────────

/// The part of `s` before the first `c` (all of `s` when there is none),
/// as `s.split(c).next()` yields it.
pub open spec fn before_first(s: Seq<char>, c: char) -> Seq<char>
    decreases s.len(),
{
    if s.len() == 0 {
        s
    } else if s[0] == c {
        Seq::<char>::empty()
    } else {
        seq![s[0]] + before_first(s.skip(1), c)
    }
}

/// `before_first` is the prefix up to the first occurrence of `c`.
pub proof fn lemma_before_first(s: Seq<char>, c: char, i: int)
    requires
        0 <= i <= s.len(),
        forall|k: int| 0 <= k < i ==> s[k] != c,
        i == s.len() || s[i] == c,
    ensures
        before_first(s, c) == s.take(i),
    decreases s.len(),
{
    if s.len() == 0 {
        assert(s.take(i) =~= s);
    } else if s[0] == c {
        assert(s.take(i) =~= Seq::<char>::empty());
    } else {
        lemma_before_first(s.skip(1), c, i - 1);
        assert(s.take(i) =~= seq![s[0]] + s.skip(1).take(i - 1));
    }
}

/// A `Content-Type` names an HTML document: its media type, trimmed and
/// ASCII-lowercased, is `text/html` or `application/xhtml+xml`; parameters
/// such as a charset are ignored.
pub open spec fn content_type_is_html_spec(content_type: Seq<char>) -> bool {
    let primary = lower(trim(before_first(content_type, ';')));
    primary == "text/html"@ || primary == "application/xhtml+xml"@
}

/// True if `content_type` looks like an HTML document.
pub fn content_type_is_html(content_type: &str) -> (b: bool)
    ensures
        b == content_type_is_html_spec(content_type@),
{
    let v = chars_of(content_type);
    let mut i: usize = 0;
    while i < v.len() && v[i] != ';'
        invariant
            i <= v.len(),
            forall|k: int| 0 <= k < i ==> v@[k] != ';',
        decreases v.len() - i,
    {
        i = i + 1;
    }
    proof {
        lemma_before_first(v@, ';', i as int);
    }
    let head = crate::text::slice_chars(&v, 0, i);
    assert(head@ =~= v@.take(i as int));
    let primary = lower_exec(&trim_exec(&head));
    eq_str(&primary, "text/html") || eq_str(&primary, "application/xhtml+xml")
}

// ─── fetch_url: host policy ───────────────────────────────────────────────

/// An IP address, as its octets (IPv4) or 16-bit segments (IPv6).
#[derive(Clone, Copy, Debug, PartialEq, Eq)]
pub enum IpAddress {
    V4([u8; 4]),
    V6([u16; 8]),
}

/// An IPv4 address that must not be fetched: loopback (127/8),
/// unspecified (0.0.0.0), link-local (169.254/16), private (10/8,
/// 172.16/12, 192.168/16), multicast (224/4), broadcast
/// (255.255.255.255) or carrier-grade NAT (100.64/10).
pub open spec fn v4_blocked(o: Seq<u8>) -> bool {
    ||| o[0] == 127
    ||| (o[0] == 0 && o[1] == 0 && o[2] == 0 && o[3] == 0)
    ||| (o[0] == 169 && o[1] == 254)
    ||| o[0] == 10
    ||| (o[0] == 172 && 16 <= o[1] <= 31)
    ||| (o[0] == 192 && o[1] == 168)
    ||| 224 <= o[0] <= 239
    ||| (o[0] == 255 && o[1] == 255 && o[2] == 255 && o[3] == 255)
    ||| (o[0] == 100 && 64 <= o[1] <= 127)
}

/// The IPv4 address an IPv4-mapped IPv6 address (`::ffff:a.b.c.d`) stands
/// for.
pub open spec fn v6_mapped_v4(s: Seq<u16>) -> Option<Seq<u8>> {
    if s[0] == 0 && s[1] == 0 && s[2] == 0 && s[3] == 0 && s[4] == 0 && s[5] == 0xffff {
        Some(seq![(s[6] / 256) as u8, (s[6] % 256) as u8, (s[7] / 256) as u8, (s[7] % 256) as u8])
    } else {
        None
    }
}

/// An IPv6 address that must not be fetched: loopback (::1), unspecified
/// (::), multicast (ff00::/8), unique local (fc00::/7), link-local
/// (fe80::/10), or an IPv4-mapped address of a blocked IPv4 address.
pub open spec fn v6_blocked(s: Seq<u16>) -> bool {
    let zero6 = s[0] == 0 && s[1] == 0 && s[2] == 0 && s[3] == 0 && s[4] == 0 && s[5] == 0;
    ||| (zero6 && s[6] == 0 && s[7] == 1)
    ||| (zero6 && s[6] == 0 && s[7] == 0)
    ||| s[0] >= 0xff00
    ||| 0xfc00 <= s[0] <= 0xfdff
    ||| 0xfe80 <= s[0] <= 0xfebf
    ||| (v6_mapped_v4(s) matches Some(v4) && v4_blocked(v4))
}

/// True if `ip` is loopback, link-local, multicast, broadcast, private,
/// unique local, unspecified or carrier-grade NAT.
pub open spec fn ip_blocked(ip: IpAddress) -> bool {
    match ip {
        IpAddress::V4(o) => v4_blocked(o@),
        IpAddress::V6(s) => v6_blocked(s@),
    }
}

fn v4_octets_blocked(o: [u8; 4]) -> (b: bool)
    ensures
        b == v4_blocked(o@),
{
    let a = o[0];
    let b = o[1];
    let c = o[2];
    let d = o[3];
    a == 127 || (a == 0 && b == 0 && c == 0 && d == 0) || (a == 169 && b == 254) || a == 10 || (a
        == 172 && 16 <= b && b <= 31) || (a == 192 && b == 168) || (224 <= a && a <= 239) || (a
        == 255 && b == 255 && c == 255 && d == 255) || (a == 100 && 64 <= b && b <= 127)
}

fn v6_segments_blocked(s: [u16; 8]) -> (b: bool)
    ensures
        b == v6_blocked(s@),
{
    let s0 = s[0];
    let zero5 = s[0] == 0 && s[1] == 0 && s[2] == 0 && s[3] == 0 && s[4] == 0;
    if zero5 && s[5] == 0 && s[6] == 0 && (s[7] == 1 || s[7] == 0) {
        return true;
    }
    if (s0 & 0xff00) == 0xff00 {
        assert(s0 >= 0xff00) by (bit_vector)
            requires
                (s0 & 0xff00u16) == 0xff00u16,
        ;
        return true;
    }
    assert(s0 < 0xff00) by (bit_vector)
        requires
            (s0 & 0xff00u16) != 0xff00u16,
    ;
    if (s0 & 0xfe00) == 0xfc00 {
        assert(0xfc00 <= s0 <= 0xfdff) by (bit_vector)
            requires
                (s0 & 0xfe00u16) == 0xfc00u16,
        ;
        return true;
    }
    assert(!(0xfc00 <= s0 <= 0xfdff)) by (bit_vector)
        requires
            (s0 & 0xfe00u16) != 0xfc00u16,
    ;
    if (s0 & 0xffc0) == 0xfe80 {
        assert(0xfe80 <= s0 <= 0xfebf) by (bit_vector)
            requires
                (s0 & 0xffc0u16) == 0xfe80u16,
        ;
        return true;
    }
    assert(!(0xfe80 <= s0 <= 0xfebf)) by (bit_vector)
        requires
            (s0 & 0xffc0u16) != 0xfe80u16,
    ;
    if zero5 && s[5] == 0xffff {
        let hi = s[6];
        let lo = s[7];
        let o = [(hi / 256) as u8, (hi % 256) as u8, (lo / 256) as u8, (lo % 256) as u8];
        assert(o@ =~= v6_mapped_v4(s@)->0);
        v4_octets_blocked(o)
    } else {
        false
    }
}

/// True if fetching `ip` is refused.
pub fn is_blocked_ip(ip: IpAddress) -> (b: bool)
    ensures
        b == ip_blocked(ip),
{
    match ip {
        IpAddress::V4(o) => v4_octets_blocked(o),
        IpAddress::V6(s) => v6_segments_blocked(s),
    }
}

/// `host` with one pair of enclosing brackets removed (how URLs write
/// IPv6 hosts).
pub open spec fn strip_brackets(host: Seq<char>) -> Seq<char> {
    if host.len() >= 2 && host[0] == '[' && host.last() == ']' {
        host.subrange(1, host.len() - 1)
    } else {
        host
    }
}

/// The form of a host the policy is checked on: brackets removed,
/// trailing dots removed, ASCII-lowercased.
pub open spec fn normalize_host_spec(host: Seq<char>) -> Seq<char> {
    lower(trim_end_char(strip_brackets(host), '.'))
}

/// Normalises a URL host for the fetch policy.
pub fn normalize_fetch_host(host: &str) -> (r: String)
    ensures
        r@ == normalize_host_spec(host@),
{
    let v = chars_of(host);
    let n = v.len();
    let inner = if n >= 2 && v[0] == '[' && v[n - 1] == ']' {
        crate::text::slice_chars(&v, 1, n - 1)
    } else {
        crate::text::slice_chars(&v, 0, n)
    };
    assert(inner@ =~= strip_brackets(host@));
    let mut j = inner.len();
    assert(inner@.take(j as int) =~= inner@);
    while j > 0 && inner[j - 1] == '.'
        invariant
            j <= inner.len(),
            trim_end_char(inner@.take(j as int), '.') == trim_end_char(inner@, '.'),
        decreases j,
    {
        assert(inner@.take(j as int).drop_last() =~= inner@.take(j - 1));
        j = j - 1;
    }
    let kept = crate::text::slice_chars(&inner, 0, j);
    assert(kept@ =~= inner@.take(j as int));
    assert(trim_end_char(kept@, '.') == kept@);
    string_of(&lower_exec(&kept))
}

/// The refusal, if any, for fetching from the normalised host `host`;
/// `ip` is that host read as an IP address, when it is one. Empty hosts,
/// blocked addresses, `localhost` and the `.localhost`, `.local` and
/// `.internal` names are refused.
pub open spec fn host_refusal(host: Seq<char>, ip: Option<IpAddress>) -> Option<Seq<char>> {
    if host.len() == 0 {
        Some("URL has no host"@)
    } else {
        match ip {
            Some(a) => if ip_blocked(a) {
                Some("host "@ + host + " resolves to a private or loopback address"@)
            } else {
                None
            },
            None => if host == "localhost"@ || ends_with(host, ".localhost"@) || ends_with(
                host,
                ".local"@,
            ) || ends_with(host, ".internal"@) {
                Some("host "@ + host + " is on the internal-name blocklist"@)
            } else {
                None
            },
        }
    }
}

/// The verdict of `host_refusal` as a `Result`.
pub open spec fn verdict_matches(r: Result<(), String>, refusal: Option<Seq<char>>) -> bool {
    match refusal {
        None => r is Ok,
        Some(m) => r matches Err(e) && e@ == m,
    }
}

/// Checks a normalised host (see `normalize_fetch_host`) against the
/// fetch policy, given the host read as an IP address when it is one.
pub fn check_fetch_host(host_lc: &str, ip: Option<IpAddress>) -> (r: Result<(), String>)
    ensures
        verdict_matches(r, host_refusal(host_lc@, ip)),
{
    let v = chars_of(host_lc);
    if v.len() == 0 {
        return Err(owned("URL has no host"));
    }
    let blocked = match ip {
        Some(a) => is_blocked_ip(a),
        None => {
            eq_str(&v, "localhost") || crate::text::ends_with_str(&v, ".localhost")
                || crate::text::ends_with_str(&v, ".local") || crate::text::ends_with_str(
                &v,
                ".internal",
            )
        },
    };
    if !blocked {
        return Ok(());
    }
    let mut out: Vec<char> = Vec::new();
    push_str(&mut out, "host ");
    push_chars(&mut out, &v);
    if ip.is_some() {
        push_str(&mut out, " resolves to a private or loopback address");
    } else {
        push_str(&mut out, " is on the internal-name blocklist");
    }
    Err(string_of(&out))
}

/// The refusal, if any, for fetching from the URL host `host`: the host
/// is normalised, read as an IP address when it is one, and judged by
/// `host_refusal`.
pub open spec fn fetch_host_refusal(host: Seq<char>) -> Option<Seq<char>> {
    let h = normalize_host_spec(host);
    host_refusal(h, ip_literal(h))
}

/// Checks a URL host (as `Url::host_str` writes it) against the fetch
/// policy.
pub fn validate_fetch_host(host: &str) -> (r: Result<(), String>)
    ensures
        verdict_matches(r, fetch_host_refusal(host@)),
{
    let h = normalize_fetch_host(host);
    let ip = parse_ip_literal(h.as_str());
    check_fetch_host(h.as_str(), ip)
}

/// Checks the host a fetch ended at, after redirects, against the fetch
/// policy, so that a redirect cannot lead to a refused host.
pub fn check_redirect_host(final_host: &str) -> (r: Result<(), String>)
    ensures
        match fetch_host_refusal(final_host@) {
            None => r is Ok,
            Some(m) => r matches Err(e) && e@ == "redirect blocked: "@ + m,
        },
{
    match validate_fetch_host(final_host) {
        Ok(()) => Ok(()),
        Err(e) => {
            let mut out: Vec<char> = Vec::new();
            push_str(&mut out, "redirect blocked: ");
            push_str(&mut out, e.as_str());
            Err(string_of(&out))
        },
    }
}

/// A fetch host written as an IPv4 address in dotted decimal is refused
/// exactly when that address is private, loopback or otherwise blocked.
pub proof fn law_dotted_quad_host_policy(a: u8, b: u8, c: u8, d: u8)
    ensures
        fetch_host_refusal(dotted_quad(a, b, c, d)) == (if ip_blocked(IpAddress::V4([a, b, c, d])) {
            Some("host "@ + dotted_quad(a, b, c, d) + " resolves to a private or loopback address"@)
        } else {
            None
        }),
{
    let s = dotted_quad(a, b, c, d);
    lemma_dotted_quad_text(a, b, c, d);
    law_dotted_quad_is_read(a, b, c, d);
    assert(s[0] != '[');
    assert(strip_brackets(s) == s);
    assert(trim_end_char(s, '.') == s);
    assert(lower(s) =~= s) by {
        assert forall|i: int| 0 <= i < s.len() implies lower(s)[i] == s[i] by {
            assert(s[i] == '.' || is_digit_in(s[i], false));
        }
    }
}

/// An IPv4 address disguised as an IPv4-mapped IPv6 host
/// (`::ffff:a.b.c.d`) is refused exactly when the IPv4 address itself is.
pub proof fn law_mapped_quad_host_policy(a: u8, b: u8, c: u8, d: u8)
    ensures
        fetch_host_refusal(mapped_quad(a, b, c, d)) == (if ip_blocked(IpAddress::V4([a, b, c, d])) {
            Some("host "@ + mapped_quad(a, b, c, d) + " resolves to a private or loopback address"@)
        } else {
            None
        }),
{
    reveal_strlit("::ffff:");
    let s = mapped_quad(a, b, c, d);
    let q = dotted_quad(a, b, c, d);
    lemma_dotted_quad_text(a, b, c, d);
    law_mapped_quad_is_read(a, b, c, d);
    assert(s[0] != '[');
    assert(strip_brackets(s) == s);
    assert(s.last() == q.last());
    assert(trim_end_char(s, '.') == s);
    assert(lower(s) =~= s) by {
        assert forall|i: int| 0 <= i < s.len() implies lower(s)[i] == s[i] by {
            if i >= 7 {
                assert(s[i] == q[i - 7]);
            }
        }
    }
    let hi = (a * 256 + b) as u16;
    let lo = (c * 256 + d) as u16;
    assert(hi / 256 == a && hi % 256 == b) by (nonlinear_arith)
        requires
            hi == a * 256 + b,
            a < 256,
            b < 256,
    ;
    assert(lo / 256 == c && lo % 256 == d) by (nonlinear_arith)
        requires
            lo == c * 256 + d,
            c < 256,
            d < 256,
    ;
    let g = [0u16, 0, 0, 0, 0, 0xffff, hi, lo];
    assert(v6_mapped_v4(g@) == Some(seq![a, b, c, d]));
    assert(v6_blocked(g@) == v4_blocked(seq![a, b, c, d]));
    assert([a, b, c, d]@ =~= seq![a, b, c, d]);
}

/// An IPv4 address as the 32-bit number whose bytes are its octets, most
/// significant first.
pub open spec fn v4_number(o: [u8; 4]) -> u32 {
    ((o[0] as u32) << 24u32) | ((o[1] as u32) << 16u32) | ((o[2] as u32) << 8u32) | (o[3] as u32)
}

/// `v` lies in the network `net` whose prefix is selected by `mask`.
pub open spec fn in_v4_net(v: u32, net: u32, mask: u32) -> bool {
    v & mask == net
}

/// The IPv4 ranges that must not be fetched, by network and prefix mask:
/// 127.0.0.0/8, 10.0.0.0/8, 172.16.0.0/12, 192.168.0.0/16,
/// 169.254.0.0/16, 224.0.0.0/4, 100.64.0.0/10, and the single addresses
/// 0.0.0.0 and 255.255.255.255.
pub open spec fn in_refused_v4_range(v: u32) -> bool {
    ||| in_v4_net(v, 0x7f00_0000, 0xff00_0000)
    ||| in_v4_net(v, 0x0a00_0000, 0xff00_0000)
    ||| in_v4_net(v, 0xac10_0000, 0xfff0_0000)
    ||| in_v4_net(v, 0xc0a8_0000, 0xffff_0000)
    ||| in_v4_net(v, 0xa9fe_0000, 0xffff_0000)
    ||| in_v4_net(v, 0xe000_0000, 0xf000_0000)
    ||| in_v4_net(v, 0x6440_0000, 0xffc0_0000)
    ||| v == 0
    ||| v == 0xffff_ffff
}

proof fn lemma_v4_masks(a: u8, b: u8, c: u8, d: u8, v: u32)
    by (bit_vector)
    requires
        v == ((a as u32) << 24u32) | ((b as u32) << 16u32) | ((c as u32) << 8u32) | (d as u32),
    ensures
        (v & 0xff00_0000u32 == 0x7f00_0000u32) == (a == 127),
        (v & 0xff00_0000u32 == 0x0a00_0000u32) == (a == 10),
        (v & 0xfff0_0000u32 == 0xac10_0000u32) == (a == 172 && 16 <= b && b <= 31),
        (v & 0xffff_0000u32 == 0xc0a8_0000u32) == (a == 192 && b == 168),
        (v & 0xffff_0000u32 == 0xa9fe_0000u32) == (a == 169 && b == 254),
        (v & 0xf000_0000u32 == 0xe000_0000u32) == (224 <= a && a <= 239),
        (v & 0xffc0_0000u32 == 0x6440_0000u32) == (a == 100 && 64 <= b && b <= 127),
        (v == 0u32) == (a == 0 && b == 0 && c == 0 && d == 0),
        (v == 0xffff_ffffu32) == (a == 255 && b == 255 && c == 255 && d == 255),
{
}

/// The IPv4 host policy is exactly membership in the refused ranges: an
/// IPv4 address is refused if and only if its 32-bit number falls in one
/// of the listed networks under that network's prefix mask. In particular
/// every address of 172.16.0.0/12 (172.16.x.x through 172.31.x.x) is
/// refused, and written as a dotted quad its fetch host is refused as a
/// private or loopback address.
pub proof fn law_v4_policy_is_cidr_membership(o: [u8; 4])
    ensures
        ip_blocked(IpAddress::V4(o)) == in_refused_v4_range(v4_number(o)),
        (o[0] == 172 && 16 <= o[1] <= 31) ==> ip_blocked(IpAddress::V4(o)),
        (o[0] == 172 && 16 <= o[1] <= 31) ==> fetch_host_refusal(dotted_quad(o[0], o[1], o[2], o[3])) == Some(
            "host "@ + dotted_quad(o[0], o[1], o[2], o[3]) + " resolves to a private or loopback address"@,
        ),
{
    lemma_v4_masks(o[0], o[1], o[2], o[3], v4_number(o));
    law_dotted_quad_host_policy(o[0], o[1], o[2], o[3]);
    assert([o[0], o[1], o[2], o[3]] =~= o);
}

proof fn lemma_v6_masks(s0: u16)
    by (bit_vector)
    ensures
        (s0 & 0xff00u16 == 0xff00u16) == (s0 >= 0xff00u16),
        (s0 & 0xfe00u16 == 0xfc00u16) == (0xfc00u16 <= s0 && s0 <= 0xfdffu16),
        (s0 & 0xffc0u16 == 0xfe80u16) == (0xfe80u16 <= s0 && s0 <= 0xfebfu16),
{
}

/// The IPv6 host policy by prefix: an IPv6 address is refused if and only
/// if it is `::1` or `::`, lies in ff00::/8, fc00::/7 or fe80::/10 (its
/// first segment under the prefix mask), or is `::ffff:a.b.c.d` for an
/// IPv4 address `a.b.c.d` in one of the refused IPv4 ranges.
pub proof fn law_v6_policy_is_prefix_membership(s: [u16; 8])
    ensures
        ip_blocked(IpAddress::V6(s)) == ({
            let zero5 = s[0] == 0 && s[1] == 0 && s[2] == 0 && s[3] == 0 && s[4] == 0;
            ||| (zero5 && s[5] == 0 && s[6] == 0 && s[7] == 1)
            ||| (zero5 && s[5] == 0 && s[6] == 0 && s[7] == 0)
            ||| s[0] & 0xff00 == 0xff00
            ||| s[0] & 0xfe00 == 0xfc00
            ||| s[0] & 0xffc0 == 0xfe80
            ||| (zero5 && s[5] == 0xffff && in_refused_v4_range(
                ((s[6] as u32) << 16u32) | (s[7] as u32),
            ))
        }),
{
    lemma_v6_masks(s[0]);
    let (hi, lo) = (s[6], s[7]);
    let (a, b, c, d) = ((hi / 256) as u8, (hi % 256) as u8, (lo / 256) as u8, (lo % 256) as u8);
    assert(((a as u32) << 24u32) | ((b as u32) << 16u32) | ((c as u32) << 8u32) | (d as u32) == ((hi as u32)
        << 16u32) | (lo as u32)) by (bit_vector)
        requires
            a == (hi / 256) as u8,
            b == (hi % 256) as u8,
            c == (lo / 256) as u8,
            d == (lo % 256) as u8,
    ;
    let o = [a, b, c, d];
    law_v4_policy_is_cidr_membership(o);
    if s[0] == 0 && s[1] == 0 && s[2] == 0 && s[3] == 0 && s[4] == 0 && s[5] == 0xffff {
        assert(v6_mapped_v4(s@) == Some(o@));
    }
}

// ─── fetch_url: URL ───────────────────────────────────────────────────────

/// What the fetch logic reads of a parsed URL: its scheme, its host (as
/// the URL writes it), and its serialisation.
#[derive(Clone, Debug)]
pub struct UrlParts {
    pub scheme: String,
    pub host: Option<String>,
    pub serialized: String,
}

/// The result of parsing `text` as an absolute URL (the WHATWG URL
/// standard, as `url::Url::parse` implements it): the scheme, host and
/// serialisation of the URL, or the parser's error message.
pub uninterp spec fn url_parse(text: Seq<char>) -> Result<(Seq<char>, Option<Seq<char>>, Seq<char>), Seq<char>>;

/// The view of `UrlParts`.
pub open spec fn url_parts_view(p: UrlParts) -> (Seq<char>, Option<Seq<char>>, Seq<char>) {
    (p.scheme@, match p.host {
        Some(h) => Some(h@),
        None => None,
    }, p.serialized@)
}

/// `reqwest::Url::parse` (`url::Url::parse`), read back through
/// `Url::scheme`, `Url::host_str` and `Url::as_str`; a failure is the
/// error's text. The outcome is named by `url_parse`.
#[verifier::external_body]
fn parse_url_parts(text: &str) -> (r: Result<UrlParts, String>)
    ensures
        match (r, url_parse(text@)) {
            (Ok(p), Ok(v)) => url_parts_view(p) == v,
            (Err(e), Err(m)) => e@ == m,
            _ => false,
        },
{
    match reqwest::Url::parse(text) {
        Ok(u) => {
            let host = match u.host_str() {
                Some(h) => Some(h.to_string()),
                None => None,
            };
            Ok(UrlParts { scheme: u.scheme().to_string(), host, serialized: u.as_str().to_string() })
        },
        Err(e) => Err(e.to_string()),
    }
}

/// The URL and host a fetch goes to.
#[derive(Clone, Debug)]
pub struct FetchTarget {
    /// The parsed URL, serialised.
    pub url: String,
    /// Its host, as the URL writes it (IPv6 hosts in brackets).
    pub host: String,
}

/// The outcome of reading `raw` as a fetch URL: trimmed, non-empty, a
/// URL, with scheme http or https, with a host that the fetch policy
/// allows.
pub open spec fn fetch_url_spec(raw: Seq<char>) -> Result<(Seq<char>, Seq<char>), Seq<char>> {
    let t = trim(raw);
    if t.len() == 0 {
        Err("URL is empty"@)
    } else {
        fetch_target_spec(url_parse(t))
    }
}

/// What a fetch goes to, given the outcome of parsing its URL: the
/// parser's error, a refused scheme, a missing host, a refused host, or
/// the serialised URL and its host.
pub open spec fn fetch_target_spec(parsed: Result<(Seq<char>, Option<Seq<char>>, Seq<char>), Seq<char>>) -> Result<
    (Seq<char>, Seq<char>),
    Seq<char>,
> {
    match parsed {
        Err(m) => Err("invalid URL: "@ + m),
        Ok((scheme, host, ser)) => if scheme != "http"@ && scheme != "https"@ {
            Err("unsupported URL scheme '"@ + scheme + "'; only http/https are allowed"@)
        } else {
            match host {
                None => Err("URL has no host"@),
                Some(h) => match fetch_host_refusal(h) {
                    Some(m) => Err(m),
                    None => Ok((ser, h)),
                },
            }
        },
    }
}

/// Validates a fetch URL: its shape, its scheme and its host.
pub fn parse_fetch_url(raw: &str) -> (r: Result<FetchTarget, String>)
    ensures
        match (r, fetch_url_spec(raw@)) {
            (Ok(t), Ok((u, h))) => t.url@ == u && t.host@ == h,
            (Err(e), Err(m)) => e@ == m,
            _ => false,
        },
{
    let t = trim_exec(&chars_of(raw));
    if t.len() == 0 {
        return Err(owned("URL is empty"));
    }
    let ts = string_of(&t);
    fetch_target_from_parts(parse_url_parts(ts.as_str()))
}

/// Decides where a fetch goes once its URL has been parsed: the scheme
/// must be http or https and the host must pass the fetch policy.
pub fn fetch_target_from_parts(parsed: Result<UrlParts, String>) -> (r: Result<FetchTarget, String>)
    ensures
        match (r, fetch_target_spec(match parsed {
            Ok(p) => Ok(url_parts_view(p)),
            Err(e) => Err(e@),
        })) {
            (Ok(t), Ok((u, h))) => t.url@ == u && t.host@ == h,
            (Err(e), Err(m)) => e@ == m,
            _ => false,
        },
{
    match parsed {
        Err(m) => {
            let mut out: Vec<char> = Vec::new();
            push_str(&mut out, "invalid URL: ");
            push_str(&mut out, m.as_str());
            Err(string_of(&out))
        },
        Ok(parts) => {
            let sv = chars_of(parts.scheme.as_str());
            if !eq_str(&sv, "http") && !eq_str(&sv, "https") {
                let mut out: Vec<char> = Vec::new();
                push_str(&mut out, "unsupported URL scheme '");
                push_chars(&mut out, &sv);
                push_str(&mut out, "'; only http/https are allowed");
                return Err(string_of(&out));
            }
            match parts.host {
                None => Err(owned("URL has no host")),
                Some(h) => match validate_fetch_host(h.as_str()) {
                    Err(e) => Err(e),
                    Ok(()) => Ok(FetchTarget { url: parts.serialized, host: h }),
                },
            }
        },
    }
}

// ─── fetch_url: request and response ──────────────────────────────────────

/// How the extracted article is rendered.
#[derive(Clone, Copy, Debug, PartialEq, Eq, Structural)]
pub enum ArticleFormat {
    /// Markdown (the default).
    Markdown,
    /// Formatted plain text.
    Text,
}

/// The `format` argument of `fetch_url`: absent or `markdown` gives
/// Markdown, `text` gives plain text, anything else is refused.
pub open spec fn article_format_spec(format: Option<Seq<char>>) -> Result<ArticleFormat, Seq<char>> {
    match format {
        None => Ok(ArticleFormat::Markdown),
        Some(f) => if f == "markdown"@ {
            Ok(ArticleFormat::Markdown)
        } else if f == "text"@ {
            Ok(ArticleFormat::Text)
        } else {
            Err("unsupported format '"@ + f + "'; use 'markdown' or 'text'"@)
        },
    }
}

/// Reads the `format` argument of `fetch_url`.
pub fn article_format(format: Option<&str>) -> (r: Result<ArticleFormat, String>)
    ensures
        match (r, article_format_spec(opt_str_view(format))) {
            (Ok(a), Ok(b)) => a == b,
            (Err(e), Err(m)) => e@ == m,
            _ => false,
        },
{
    match format {
        None => Ok(ArticleFormat::Markdown),
        Some(f) => {
            let v = chars_of(f);
            if eq_str(&v, "markdown") {
                Ok(ArticleFormat::Markdown)
            } else if eq_str(&v, "text") {
                Ok(ArticleFormat::Text)
            } else {
                let mut out: Vec<char> = Vec::new();
                push_str(&mut out, "unsupported format '");
                push_chars(&mut out, &v);
                push_str(&mut out, "'; use 'markdown' or 'text'");
                Err(string_of(&out))
            }
        },
    }
}

/// The message for a request that failed before any response: a timeout,
/// a connection failure to `url`, or any other network error (`detail` is
/// the error's own text).
pub open spec fn fetch_failure_spec(is_timeout: bool, is_connect: bool, url: Seq<char>, detail: Seq<char>) -> Seq<char> {
    if is_timeout {
        "fetch timed out"@
    } else if is_connect {
        "could not connect to "@ + url
    } else {
        "network error: "@ + detail
    }
}

/// Words a failed request for the model.
pub fn fetch_failure_message(is_timeout: bool, is_connect: bool, url: &str, detail: &str) -> (m: String)
    ensures
        m@ == fetch_failure_spec(is_timeout, is_connect, url@, detail@),
{
    if is_timeout {
        return owned("fetch timed out");
    }
    let mut out: Vec<char> = Vec::new();
    if is_connect {
        push_str(&mut out, "could not connect to ");
        push_str(&mut out, url);
    } else {
        push_str(&mut out, "network error: ");
        push_str(&mut out, detail);
    }
    string_of(&out)
}

/// The text of a `reqwest::Error` (its `Display`).
pub uninterp spec fn reqwest_error_display(e: reqwest::Error) -> Seq<char>;

/// The text of a `reqwest::Error` (`ToString`, through its `Display`).
#[verifier::external_body]
pub(crate) fn reqwest_error_text(e: &reqwest::Error) -> (r: String)
    ensures
        r@ == reqwest_error_display(*e),
{
    e.to_string()
}

/// The message for a `reqwest` request error on `url`.
pub fn classify_fetch_error(e: &reqwest::Error, url: &str) -> (m: String)
    ensures
        m@ == fetch_failure_spec(
            crate::chat::reqwest_error_timeout(*e),
            crate::chat::reqwest_error_connect(*e),
            url@,
            reqwest_error_display(*e),
        ),
{
    let t = crate::chat::reqwest_error_is_timeout(e);
    let c = crate::chat::reqwest_error_is_connect(e);
    let d = reqwest_error_text(e);
    let m = fetch_failure_message(t, c, url, d.as_str());
    assert(m@ == fetch_failure_spec(t, c, url@, d@));
    m
}

/// The refusal, if any, of a response: a non-success status (shown as
/// `status`), or a content type that is not HTML.
pub open spec fn response_refusal(success: bool, status: Seq<char>, content_type: Seq<char>) -> Option<Seq<char>> {
    if !success {
        Some("server returned HTTP "@ + status)
    } else if !content_type_is_html_spec(content_type) {
        Some("unsupported content-type '"@ + content_type + "'; only text/html is supported"@)
    } else {
        None
    }
}

/// Checks a response's status and content type before its body is read.
pub fn check_fetch_response(success: bool, status: &str, content_type: &str) -> (r: Result<(), String>)
    ensures
        verdict_matches(r, response_refusal(success, status@, content_type@)),
{
    let mut out: Vec<char> = Vec::new();
    if !success {
        push_str(&mut out, "server returned HTTP ");
        push_str(&mut out, status);
        return Err(string_of(&out));
    }
    if !content_type_is_html(content_type) {
        push_str(&mut out, "unsupported content-type '");
        push_str(&mut out, content_type);
        push_str(&mut out, "'; only text/html is supported");
        return Err(string_of(&out));
    }
    Ok(())
}

/// Appends a received chunk to the body, keeping at most
/// `FETCH_MAX_BYTES`: a chunk that would cross the cap is cut at the cap
/// and `true` is returned (the rest of the body is then dropped).
pub fn append_capped(body: &mut Vec<u8>, chunk: &[u8]) -> (truncated: bool)
    requires
        old(body)@.len() <= FETCH_MAX_BYTES,
    ensures
        truncated == (old(body)@.len() + chunk@.len() > FETCH_MAX_BYTES),
        truncated ==> final(body)@ == old(body)@ + chunk@.take(FETCH_MAX_BYTES - old(body)@.len()),
        !truncated ==> final(body)@ == old(body)@ + chunk@,
        final(body)@.len() <= FETCH_MAX_BYTES,
{
    let room = FETCH_MAX_BYTES - body.len();
    let take = if chunk.len() > room { room } else { chunk.len() };
    let ghost start = body@;
    let mut i: usize = 0;
    while i < take
        invariant
            i <= take <= chunk@.len(),
            body@ == start + chunk@.take(i as int),
        decreases take - i,
    {
        body.push(chunk[i]);
        i = i + 1;
        assert(chunk@.take(i as int) =~= chunk@.take(i - 1).push(chunk@[i - 1]));
    }
    assert(chunk@.take(chunk@.len() as int) =~= chunk@);
    chunk.len() > room
}

// ─── fetch_url: article ───────────────────────────────────────────────────

/// The largest character boundary of `bytes` at or below `n`.
pub open spec fn boundary_at_or_below(bytes: Seq<u8>, n: int) -> int
    decreases n,
{
    if n <= 0 {
        0
    } else if vstd::utf8::is_char_boundary(bytes, n) {
        n
    } else {
        boundary_at_or_below(bytes, n - 1)
    }
}

/// The longest prefix of `s` whose UTF-8 encoding fits in `max` bytes.
pub open spec fn utf8_prefix_spec(s: Seq<char>, max: int) -> Seq<char> {
    decode_utf8(encode_utf8(s).subrange(0, boundary_at_or_below(encode_utf8(s), max)))
}

/// Cuts `s`, which is longer than `max` bytes, at the last character
/// boundary at or below `max`: the kept text and its length in bytes.
pub fn utf8_prefix_within(s: &str, max: usize) -> (r: (String, usize))
    requires
        byte_len(s@) > max,
    ensures
        r.1 == boundary_at_or_below(encode_utf8(s@), max as int),
        r.0@ == utf8_prefix_spec(s@, max as int),
        encode_utf8(r.0@) == encode_utf8(s@).subrange(0, r.1 as int),
        r.1 <= max,
{
    proof {
        vstd::utf8::encode_utf8_valid_utf8(s@);
    }
    let mut cut = max;
    while cut > 0 && !s.is_char_boundary(cut)
        invariant
            cut <= max,
            max < s.spec_bytes().len(),
            vstd::utf8::valid_utf8(s.spec_bytes()),
            boundary_at_or_below(s.spec_bytes(), cut as int) == boundary_at_or_below(s.spec_bytes(), max as int),
        decreases cut,
    {
        cut = cut - 1;
    }
    proof {
        vstd::utf8::is_char_boundary_start_end_of_seq(s.spec_bytes());
        lemma_boundary_at_or_below(s.spec_bytes(), max as int);
        lemma_utf8_prefix(s.spec_bytes(), cut as int);
    }
    let (head, _rest) = s.split_at(cut);
    proof {
        vstd::utf8::encode_utf8_decode_utf8(head@);
    }
    (crate::text::owned(head), cut)
}

/// The title line, source line and body of an extracted article.
pub open spec fn article_body_spec(title: Seq<char>, text: Seq<char>, url: Seq<char>) -> Seq<char> {
    (if trim(title).len() == 0 { Seq::<char>::empty() } else { "# "@ + title + "\n"@ }) + "Source: "@
        + url + "\n\n"@ + text
}

/// What `fetch_url` returns for an extracted article: the title line (when
/// the title is not blank), the source line and the text; cut at the last
/// character boundary within `FETCH_RESULT_MAX_BYTES` with a note when
/// longer, otherwise noted when the response body itself was cut.
pub open spec fn article_text_spec(title: Seq<char>, text: Seq<char>, url: Seq<char>, body_truncated: bool) -> Seq<char> {
    let out = article_body_spec(title, text, url);
    let total = byte_len(out);
    if total > FETCH_RESULT_MAX_BYTES {
        let cut = boundary_at_or_below(encode_utf8(out), FETCH_RESULT_MAX_BYTES as int);
        decode_utf8(encode_utf8(out).subrange(0, cut)) + "\n\n[truncated: showing first "@
            + decimal(cut as nat) + " of "@ + decimal(total as nat)
            + " bytes of extracted text]"@
    } else if body_truncated {
        out
            + "\n\n[truncated: response body exceeded 5242880 bytes; readability ran on the partial body]"@
    } else {
        out
    }
}

/// A cut at a character boundary of valid UTF-8 keeps exactly the bytes
/// before it: decoding the prefix and encoding it again gives the prefix.
pub proof fn lemma_utf8_prefix(bytes: Seq<u8>, cut: int)
    requires
        valid_utf8(bytes),
        vstd::utf8::is_char_boundary(bytes, cut),
    ensures
        encode_utf8(decode_utf8(bytes.subrange(0, cut))) == bytes.subrange(0, cut),
        0 <= cut <= bytes.len(),
{
    vstd::utf8::valid_utf8_split(bytes, cut);
    vstd::utf8::decode_utf8_encode_utf8(bytes.subrange(0, cut));
}

/// The boundary found below `n` is a character boundary within `[0, n]`.
pub proof fn lemma_boundary_at_or_below(bytes: Seq<u8>, n: int)
    requires
        valid_utf8(bytes),
        0 <= n,
    ensures
        0 <= boundary_at_or_below(bytes, n) <= n,
        vstd::utf8::is_char_boundary(bytes, boundary_at_or_below(bytes, n)),
    decreases n,
{
    vstd::utf8::is_char_boundary_start_end_of_seq(bytes);
    if n > 0 && !vstd::utf8::is_char_boundary(bytes, n) {
        lemma_boundary_at_or_below(bytes, n - 1);
    }
}

/// What `fetch_url` keeps of an over-long article is a prefix of its
/// UTF-8 encoding, cut at a character boundary, of at most
/// `FETCH_RESULT_MAX_BYTES` bytes; the note then names that byte count.
pub proof fn law_article_within_budget(title: Seq<char>, text: Seq<char>, url: Seq<char>, body_truncated: bool)
    ensures
        ({
            let out = article_body_spec(title, text, url);
            let cut = boundary_at_or_below(encode_utf8(out), FETCH_RESULT_MAX_BYTES as int);
            let kept = decode_utf8(encode_utf8(out).subrange(0, cut));
            byte_len(out) > FETCH_RESULT_MAX_BYTES ==> {
                &&& 0 <= cut <= FETCH_RESULT_MAX_BYTES
                &&& encode_utf8(kept) == encode_utf8(out).subrange(0, cut)
                &&& article_text_spec(title, text, url, body_truncated) == kept
                    + "\n\n[truncated: showing first "@ + decimal(cut as nat) + " of "@ + decimal(
                    byte_len(out) as nat,
                ) + " bytes of extracted text]"@
            }
        }),
{
    let out = article_body_spec(title, text, url);
    let bytes = encode_utf8(out);
    vstd::utf8::encode_utf8_valid_utf8(out);
    if byte_len(out) > FETCH_RESULT_MAX_BYTES {
        lemma_boundary_at_or_below(bytes, FETCH_RESULT_MAX_BYTES as int);
        let cut = boundary_at_or_below(bytes, FETCH_RESULT_MAX_BYTES as int);
        lemma_utf8_prefix(bytes, cut);
    }
}

/// What `trim_to_limit` keeps of an over-long text is a prefix of its
/// UTF-8 encoding, cut at a character boundary, of at most `max` bytes;
/// when `max` itself falls on a boundary, exactly the first `max` bytes.
pub proof fn law_trim_keeps_max_bytes(s: Seq<char>, max: usize)
    requires
        byte_len(s) > max,
    ensures
        ({
            let cut = boundary_at_or_below(encode_utf8(s), max as int);
            &&& 0 <= cut <= max
            &&& encode_utf8(utf8_prefix_spec(s, max as int)) == encode_utf8(s).subrange(0, cut)
            &&& vstd::utf8::is_char_boundary(encode_utf8(s), max as int) ==> cut == max
        }),
{
    vstd::utf8::encode_utf8_valid_utf8(s);
    lemma_boundary_at_or_below(encode_utf8(s), max as int);
    lemma_utf8_prefix(encode_utf8(s), boundary_at_or_below(encode_utf8(s), max as int));
}

/// Formats an extracted article for the model.
pub fn format_article(title: &str, text: &str, final_url: &str, body_truncated: bool) -> (r: String)
    ensures
        r@ == article_text_spec(title@, text@, final_url@, body_truncated),
{
    let mut out: Vec<char> = Vec::new();
    let tv = chars_of(title);
    if trim_exec(&tv).len() > 0 {
        push_str(&mut out, "# ");
        push_chars(&mut out, &tv);
        push_str(&mut out, "\n");
    }
    push_str(&mut out, "Source: ");
    push_str(&mut out, final_url);
    push_str(&mut out, "\n\n");
    push_str(&mut out, text);
    assert(out@ =~= article_body_spec(title@, text@, final_url@));
    let whole = string_of(&out);
    let ws = whole.as_str();
    let total = ws.len();
    if total > FETCH_RESULT_MAX_BYTES {
        proof {
            vstd::utf8::encode_utf8_valid_utf8(ws@);
        }
        let mut cut = FETCH_RESULT_MAX_BYTES;
        while cut > 0 && !ws.is_char_boundary(cut)
            invariant
                cut <= FETCH_RESULT_MAX_BYTES,
                vstd::utf8::valid_utf8(ws.spec_bytes()),
                boundary_at_or_below(ws.spec_bytes(), cut as int) == boundary_at_or_below(
                    ws.spec_bytes(),
                    FETCH_RESULT_MAX_BYTES as int,
                ),
            decreases cut,
        {
            cut = cut - 1;
        }
        proof {
            vstd::utf8::is_char_boundary_start_end_of_seq(ws.spec_bytes());
        }
        let (head, _rest) = ws.split_at(cut);
        proof {
            vstd::utf8::encode_utf8_decode_utf8(head@);
        }
        let mut res = chars_of(head);
        push_str(&mut res, "\n\n[truncated: showing first ");
        let d1 = decimal_exec(cut as u64);
        push_chars(&mut res, &d1);
        push_str(&mut res, " of ");
        let d2 = decimal_exec(total as u64);
        push_chars(&mut res, &d2);
        push_str(&mut res, " bytes of extracted text]");
        string_of(&res)
    } else if body_truncated {
        let mut res = chars_of(ws);
        push_str(
            &mut res,
            "\n\n[truncated: response body exceeded 5242880 bytes; readability ran on the partial body]",
        );
        string_of(&res)
    } else {
        whole
    }
}

#[verifier::external_type_specification]
#[verifier::external_body]
pub struct ExReadability(dom_smoothie::Readability);

/// A character allowed in a URL scheme after its first letter.
pub open spec fn scheme_char(c: char) -> bool {
    ('a' <= c && c <= 'z') || ('A' <= c && c <= 'Z') || ('0' <= c && c <= '9') || c == '+' || c == '-' || c == '.'
}

/// `url` is an absolute URL in the sense `dom_smoothie` requires of a
/// document URL: once trimmed, a scheme (an ASCII letter, then letters,
/// digits, `+`, `-` or `.`) before the first `://`, something after it,
/// and not ending in `://`.
pub open spec fn readability_url_is_absolute(url: Seq<char>) -> bool {
    let s = trim(url);
    match crate::text::find(s, "://"@) {
        None => false,
        Some(pos) => pos > 0 && (('a' <= s[0] && s[0] <= 'z') || ('A' <= s[0] && s[0] <= 'Z')) && (forall|i: int|
            1 <= i < pos ==> scheme_char(#[trigger] s[i])) && s.len() > pos + 3 && !ends_with(s, "://"@),
    }
}

/// The `Readability` that `dom_smoothie::Readability::new` builds from
/// `html` with document URL `url` in the given text mode.
pub uninterp spec fn readability_doc(html: Seq<char>, url: Seq<char>, format: ArticleFormat) -> dom_smoothie::Readability;

/// What `dom_smoothie::Readability::parse` gives for the document `r`:
/// the article's title and text content, or the error's text.
pub uninterp spec fn readability_article(r: dom_smoothie::Readability) -> Result<(Seq<char>, Seq<char>), Seq<char>>;

/// `dom_smoothie::Readability::new` on `html` with document URL `url`
/// and the default configuration in the given text mode (Markdown, or
/// Formatted for plain text). Its only failure, `BadDocumentURL`, comes
/// exactly when the URL is not absolute; the error's text is then
/// returned. The document built is named by `readability_doc`.
#[verifier::external_body]
fn readability_new(html: &str, url: &str, format: ArticleFormat) -> (r: Result<dom_smoothie::Readability, String>)
    ensures
        r is Ok <==> readability_url_is_absolute(url@),
        r matches Err(e) ==> e@ == "the document URL must be absolute"@,
        r matches Ok(d) ==> d == readability_doc(html@, url@, format),
{
    let text_mode = match format {
        ArticleFormat::Markdown => dom_smoothie::TextMode::Markdown,
        ArticleFormat::Text => dom_smoothie::TextMode::Formatted,
    };
    let cfg = dom_smoothie::Config { text_mode, ..Default::default() };
    match dom_smoothie::Readability::new(html, Some(url), Some(cfg)) {
        Ok(r) => Ok(r),
        Err(e) => Err(e.to_string()),
    }
}

/// `dom_smoothie::Readability::parse`: the article's title and text
/// content, or the error's text; the outcome is named by
/// `readability_article` of the document before the call.
#[verifier::external_body]
fn readability_parse(r: &mut dom_smoothie::Readability) -> (res: Result<(String, String), String>)
    ensures
        match (res, readability_article(*old(r))) {
            (Ok((t, x)), Ok((t2, x2))) => t@ == t2 && x@ == x2,
            (Err(e), Err(m)) => e@ == m,
            _ => false,
        },
{
    match r.parse() {
        Ok(a) => Ok((a.title, a.text_content.to_string())),
        Err(e) => Err(e.to_string()),
    }
}

/// Runs Mozilla Readability (through `dom_smoothie`) over `html` and
/// formats the article for the model (`format_article`).
pub fn extract_article(html: &str, final_url: &str, format: ArticleFormat, body_truncated: bool) -> (r: Result<String, String>)
    ensures
        !readability_url_is_absolute(final_url@) ==> (r matches Err(e) && e@
            == "readability init failed: "@ + "the document URL must be absolute"@),
        readability_url_is_absolute(final_url@) ==> match (r, readability_article(readability_doc(html@, final_url@, format))) {
            (Ok(o), Ok((t, x))) => o@ == article_text_spec(t, x, final_url@, body_truncated),
            (Err(e), Err(d)) => e@ == "could not extract article: "@ + d,
            _ => false,
        },
{
    let mut rd = match readability_new(html, final_url, format) {
        Ok(rd) => rd,
        Err(e) => {
            let mut out: Vec<char> = Vec::new();
            push_str(&mut out, "readability init failed: ");
            push_str(&mut out, e.as_str());
            return Err(string_of(&out));
        },
    };
    match readability_parse(&mut rd) {
        Ok((title, text)) => {
            let o = format_article(title.as_str(), text.as_str(), final_url, body_truncated);
            assert(o@ == article_text_spec(title@, text@, final_url@, body_truncated));
            Ok(o)
        },
        Err(e) => {
            let mut out: Vec<char> = Vec::new();
            push_str(&mut out, "could not extract article: ");
            push_str(&mut out, e.as_str());
            let ghost d = e@;
            let r = string_of(&out);
            assert(r@ == "could not extract article: "@ + d);
            Err(r)
        },
    }
}

// ─── Reports of the other tools ───────────────────────────────────────────

/// `run_shell` refuses a command that is blank once trimmed.
pub fn check_shell_command(command: &str) -> (r: Result<(), String>)
    ensures
        r is Ok <==> trim(command@).len() > 0,
        r matches Err(e) ==> e@ == "empty command"@,
{
    if trim_exec(&chars_of(command)).len() == 0 {
        Err(owned("empty command"))
    } else {
        Ok(())
    }
}

/// The error for a command killed at the `run_shell` timeout.
pub fn shell_timeout_error() -> (e: String)
    ensures
        e@ == "Command exceeded "@ + decimal(SHELL_TIMEOUT_SECS as nat) + "s timeout and was killed."@,
{
    let mut out: Vec<char> = Vec::new();
    push_str(&mut out, "Command exceeded ");
    let d = decimal_exec(SHELL_TIMEOUT_SECS);
    push_chars(&mut out, &d);
    push_str(&mut out, "s timeout and was killed.");
    string_of(&out)
}

/// The `write_file` report: the number of bytes written and the path.
pub fn write_file_report(path: &str, content: &str) -> (r: String)
    ensures
        r@ == "Wrote "@ + decimal(byte_len(content@) as nat) + " bytes to "@ + path@,
{
    let mut out: Vec<char> = Vec::new();
    push_str(&mut out, "Wrote ");
    let d = decimal_exec(content.len() as u64);
    push_chars(&mut out, &d);
    push_str(&mut out, " bytes to ");
    push_str(&mut out, path);
    string_of(&out)
}

/// `delete_file` refuses directories with this message.
pub fn delete_directory_refusal(path: &str) -> (r: String)
    ensures
        r@ == path@ + " is a directory; refusing to delete (use a shell command if you really mean it)"@,
{
    let mut out: Vec<char> = Vec::new();
    push_str(&mut out, path);
    push_str(&mut out, " is a directory; refusing to delete (use a shell command if you really mean it)");
    string_of(&out)
}

/// The `read_clipboard` result for the clipboard's text.
pub fn clipboard_read_result(text: String) -> (r: String)
    ensures
        text@.len() == 0 ==> r@ == "(clipboard is empty)"@,
        text@.len() > 0 ==> r@ == text@,
{
    if text.as_str().is_empty() {
        owned("(clipboard is empty)")
    } else {
        text
    }
}

/// The `write_clipboard` report: how many characters were written.
pub fn clipboard_write_report(text: &str) -> (r: String)
    ensures
        r@ == "Wrote "@ + decimal(text@.len()) + " characters to the clipboard."@,
{
    let v = chars_of(text);
    let mut out: Vec<char> = Vec::new();
    push_str(&mut out, "Wrote ");
    let d = decimal_exec(v.len() as u64);
    push_chars(&mut out, &d);
    push_str(&mut out, " characters to the clipboard.");
    string_of(&out)
}

/// `open_url` opens only http and https URLs.
pub fn check_open_url(url: &str) -> (r: Result<(), String>)
    ensures
        r is Ok <==> (starts_with(url@, "http://"@) || starts_with(url@, "https://"@)),
        r matches Err(e) ==> e@ == "only http/https URLs are allowed"@,
{
    let v = chars_of(url);
    if crate::text::starts_with_str(&v, "http://") || crate::text::starts_with_str(&v, "https://") {
        Ok(())
    } else {
        Err(owned("only http/https URLs are allowed"))
    }
}

/// The `launch_app` report: the program, then its arguments when there
/// are any.
pub open spec fn launch_report_spec(path: Seq<char>, args: Option<Seq<Seq<char>>>) -> Seq<char> {
    "Launched "@ + path + match args {
        Some(a) => if a.len() > 0 { " "@ + join(a, " "@) } else { Seq::<char>::empty() },
        None => Seq::<char>::empty(),
    }
}

/// Reports a launched program.
pub fn launch_report(path: &str, args: Option<&Vec<String>>) -> (r: String)
    ensures
        r@ == launch_report_spec(path@, match args {
            Some(a) => Some(strings_view(a@)),
            None => None,
        }),
{
    let mut out: Vec<char> = Vec::new();
    push_str(&mut out, "Launched ");
    push_str(&mut out, path);
    let ghost base = out@;
    match args {
        Some(a) => {
            if a.len() > 0 {
                push_str(&mut out, " ");
                push_joined(&mut out, a, 0, a.len(), " ");
                assert(a@.subrange(0, a@.len() as int) =~= a@);
            } else {
                assert(out@ =~= base + Seq::<char>::empty());
            }
        },
        None => {
            assert(out@ =~= base + Seq::<char>::empty());
        },
    }
    string_of(&out)
}

/// The `glob` result for all the paths that matched `full`: the first
/// `GLOB_MAX_RESULTS`, one per line, with a note when there were more, or
/// a "no matches" line.
pub open spec fn glob_report_spec(full: Seq<char>, paths: Seq<Seq<char>>) -> Seq<char> {
    if paths.len() == 0 {
        "(no matches for '"@ + full + "')"@
    } else if paths.len() > GLOB_MAX_RESULTS {
        join(paths.take(GLOB_MAX_RESULTS as int), "\n"@) + "\n\n[truncated: showing first 200 of "@
            + decimal(paths.len()) + " matches]"@
    } else {
        join(paths, "\n"@)
    }
}

/// Formats the paths a glob pattern matched.
pub fn glob_report(full: &str, paths: &Vec<String>) -> (r: String)
    ensures
        r@ == glob_report_spec(full@, strings_view(paths@)),
{
    let mut out: Vec<char> = Vec::new();
    let n = paths.len();
    if n == 0 {
        push_str(&mut out, "(no matches for '");
        push_str(&mut out, full);
        push_str(&mut out, "')");
        return string_of(&out);
    }
    let shown = if n > GLOB_MAX_RESULTS { GLOB_MAX_RESULTS } else { n };
    push_joined(&mut out, paths, 0, shown, "\n");
    assert(strings_view(paths@.subrange(0, shown as int)) =~= if n > GLOB_MAX_RESULTS {
        strings_view(paths@).take(GLOB_MAX_RESULTS as int)
    } else {
        strings_view(paths@)
    });
    if n > GLOB_MAX_RESULTS {
        push_str(&mut out, "\n\n[truncated: showing first 200 of ");
        let d = decimal_exec(n as u64);
        push_chars(&mut out, &d);
        push_str(&mut out, " matches]");
    }
    string_of(&out)
}

/// `grep_content` refuses an empty needle.
pub fn check_grep_needle(needle: &str) -> (r: Result<(), String>)
    ensures
        r is Ok <==> needle@.len() > 0,
        r matches Err(e) ==> e@ == "needle must be non-empty"@,
{
    if needle.is_empty() {
        Err(owned("needle must be non-empty"))
    } else {
        Ok(())
    }
}

/// Unicode lowercase of a string (std's `str::to_lowercase`).
pub uninterp spec fn unicode_lower(s: Seq<char>) -> Seq<char>;

/// `str::to_lowercase`; the result is named by `unicode_lower`.
#[verifier::external_body]
fn to_lowercase_exec(s: &str) -> (r: String)
    ensures
        r@ == unicode_lower(s@),
{
    s.to_lowercase()
}

/// A line matches a (lowercased) needle when its Unicode lowercase
/// contains it.
pub fn grep_line_matches(line: &str, needle_lower: &str) -> (b: bool)
    ensures
        b == crate::text::contains(unicode_lower(line@), needle_lower@),
{
    let l = to_lowercase_exec(line);
    crate::text::contains_str(&chars_of(l.as_str()), needle_lower)
}

/// The lowercased needle of a grep.
pub fn grep_needle_lower(needle: &str) -> (r: String)
    ensures
        r@ == unicode_lower(needle@),
{
    to_lowercase_exec(needle)
}

/// One grep match: path, 1-based line number and the line, cut to its
/// longest prefix within 300 bytes, with an ellipsis, when longer.
pub open spec fn grep_entry_spec(path: Seq<char>, lineno: nat, line: Seq<char>) -> Seq<char> {
    path + ":"@ + decimal(lineno) + ": "@ + (if byte_len(line) > 300 {
        utf8_prefix_spec(line, 300) + "…"@
    } else {
        line
    })
}

/// Formats one grep match; an over-long line is cut at the last
/// character boundary within 300 bytes.
pub fn grep_entry(path: &str, lineno: u64, line: &str) -> (r: String)
    ensures
        r@ == grep_entry_spec(path@, lineno as nat, line@),
{
    let mut out: Vec<char> = Vec::new();
    push_str(&mut out, path);
    push_str(&mut out, ":");
    let d = decimal_exec(lineno);
    push_chars(&mut out, &d);
    push_str(&mut out, ": ");
    if line.len() > 300 {
        let (head, _cut) = utf8_prefix_within(line, 300);
        push_str(&mut out, head.as_str());
        push_str(&mut out, "…");
    } else {
        push_str(&mut out, line);
    }
    string_of(&out)
}

/// The `grep_content` result: the first `GREP_MAX_MATCHES` entries, one
/// per line, with a note when `total` is larger, or a "no matches" line.
pub open spec fn grep_report_spec(needle: Seq<char>, full: Seq<char>, matches: Seq<Seq<char>>, total: nat) -> Seq<char> {
    if matches.len() == 0 {
        "(no matches for '"@ + needle + "' in '"@ + full + "')"@
    } else if total > GREP_MAX_MATCHES {
        join(matches, "\n"@) + "\n\n[truncated: showing first 100 of "@ + decimal(total)
            + " matches]"@
    } else {
        join(matches, "\n"@)
    }
}

/// Formats the kept grep entries and the total number of matches.
pub fn grep_report(needle: &str, full: &str, matches: &Vec<String>, total: u64) -> (r: String)
    ensures
        r@ == grep_report_spec(needle@, full@, strings_view(matches@), total as nat),
{
    let mut out: Vec<char> = Vec::new();
    if matches.len() == 0 {
        push_str(&mut out, "(no matches for '");
        push_str(&mut out, needle);
        push_str(&mut out, "' in '");
        push_str(&mut out, full);
        push_str(&mut out, "')");
        return string_of(&out);
    }
    push_joined(&mut out, matches, 0, matches.len(), "\n");
    assert(matches@.subrange(0, matches@.len() as int) =~= matches@);
    if total > 100 {
        push_str(&mut out, "\n\n[truncated: showing first 100 of ");
        let d = decimal_exec(total);
        push_chars(&mut out, &d);
        push_str(&mut out, " matches]");
    }
    string_of(&out)
}

// ─── list_dir ──────────────────────────────────────────────────────────────

/// One directory entry as `list_dir` reads it.
#[derive(Clone, Debug)]
pub struct DirEntryInfo {
    pub is_dir: bool,
    pub name: String,
    pub size: u64,
}

/// The view of a directory entry.
pub struct DirEntryView {
    pub is_dir: bool,
    pub name: Seq<char>,
    pub size: u64,
}

/// The view of a directory entry.
pub open spec fn entry_view(e: DirEntryInfo) -> DirEntryView {
    DirEntryView { is_dir: e.is_dir, name: e.name@, size: e.size }
}

/// The views of a sequence of directory entries.
pub open spec fn entries_view(v: Seq<DirEntryInfo>) -> Seq<DirEntryView> {
    v.map_values(|e: DirEntryInfo| entry_view(e))
}

/// Lexicographic order of strings by code point (the order of `str`'s
/// `Ord`, which compares the UTF-8 bytes).
pub open spec fn text_lt(a: Seq<char>, b: Seq<char>) -> bool
    decreases a.len(),
{
    if a.len() == 0 {
        b.len() > 0
    } else if b.len() == 0 {
        false
    } else if a[0] != b[0] {
        (a[0] as u32) < (b[0] as u32)
    } else {
        text_lt(a.skip(1), b.skip(1))
    }
}

/// `a` is listed strictly before `b`: directories before files, then by
/// Unicode-lowercased name.
pub open spec fn listed_before(a: DirEntryView, b: DirEntryView) -> bool {
    if a.is_dir != b.is_dir {
        a.is_dir
    } else {
        text_lt(unicode_lower(a.name), unicode_lower(b.name))
    }
}

/// Where `e` goes in the listed sequence `s`: before the first entry it
/// is listed before, so entries that tie keep their order.
pub open spec fn insertion_point(s: Seq<DirEntryView>, e: DirEntryView) -> int
    decreases s.len(),
{
    if s.len() == 0 {
        0
    } else if listed_before(e, s[0]) {
        0
    } else {
        1 + insertion_point(s.skip(1), e)
    }
}

/// The entries in listing order: a stable sort by `listed_before`.
pub open spec fn sort_entries(s: Seq<DirEntryView>) -> Seq<DirEntryView>
    decreases s.len(),
{
    if s.len() == 0 {
        s
    } else {
        let rest = sort_entries(s.drop_last());
        rest.insert(insertion_point(rest, s.last()), s.last())
    }
}

/// `text_lt` computed on character vectors.
pub(crate) fn text_lt_exec(a: &Vec<char>, b: &Vec<char>) -> (r: bool)
    ensures
        r == text_lt(a@, b@),
{
    let mut k: usize = 0;
    assert(a@.skip(0) =~= a@ && b@.skip(0) =~= b@);
    while k < a.len() && k < b.len() && a[k] == b[k]
        invariant
            k <= a.len(),
            k <= b.len(),
            text_lt(a@, b@) == text_lt(a@.skip(k as int), b@.skip(k as int)),
        decreases a.len() - k,
    {
        assert(a@.skip(k as int).skip(1) =~= a@.skip(k + 1));
        assert(b@.skip(k as int).skip(1) =~= b@.skip(k + 1));
        k = k + 1;
    }
    if k == a.len() {
        k < b.len()
    } else if k == b.len() {
        false
    } else {
        (a[k] as u32) < (b[k] as u32)
    }
}

/// The position at which an entry is inserted, scanning the listed
/// entries with their lowercased names.
fn find_insertion_point(sorted: &Vec<DirEntryInfo>, keys: &Vec<Vec<char>>, is_dir: bool, key: &Vec<char>, Ghost(e): Ghost<DirEntryView>) -> (j: usize)
    requires
        sorted.len() == keys.len(),
        forall|k: int| 0 <= k < keys.len() ==> #[trigger] keys@[k]@ == unicode_lower(sorted@[k].name@),
        e.is_dir == is_dir,
        key@ == unicode_lower(e.name),
    ensures
        j == insertion_point(entries_view(sorted@), e),
        j <= sorted.len(),
{
    let ghost sv = entries_view(sorted@);
    let mut j: usize = 0;
    assert(sv.skip(0) =~= sv);
    while j < sorted.len()
        invariant
            j <= sorted.len() == keys.len(),
            sv == entries_view(sorted@),
            forall|k: int| 0 <= k < keys.len() ==> #[trigger] keys@[k]@ == unicode_lower(sorted@[k].name@),
            e.is_dir == is_dir,
            key@ == unicode_lower(e.name),
            insertion_point(sv, e) == j + insertion_point(sv.skip(j as int), e),
        decreases sorted.len() - j,
    {
        let before = if is_dir != sorted[j].is_dir {
            is_dir
        } else {
            text_lt_exec(key, &keys[j])
        };
        assert(keys@[j as int]@ == unicode_lower(sorted@[j as int].name@));
        assert(sv.skip(j as int)[0] == sv[j as int]);
        if before {
            return j;
        }
        assert(sv.skip(j as int).skip(1) =~= sv.skip(j + 1));
        j = j + 1;
    }
    j
}

/// A copy of a directory entry.
fn copy_entry(e: &DirEntryInfo) -> (r: DirEntryInfo)
    ensures
        entry_view(r) == entry_view(*e),
{
    DirEntryInfo { is_dir: e.is_dir, name: e.name.clone(), size: e.size }
}

/// Sorts directory entries into listing order.
pub fn sort_dir_entries(entries: &Vec<DirEntryInfo>) -> (r: Vec<DirEntryInfo>)
    ensures
        entries_view(r@) == sort_entries(entries_view(entries@)),
{
    let mut sorted: Vec<DirEntryInfo> = Vec::new();
    let mut keys: Vec<Vec<char>> = Vec::new();
    let mut i: usize = 0;
    while i < entries.len()
        invariant
            i <= entries.len(),
            sorted.len() == keys.len(),
            forall|k: int| 0 <= k < keys.len() ==> #[trigger] keys@[k]@ == unicode_lower(sorted@[k].name@),
            entries_view(sorted@) == sort_entries(entries_view(entries@.take(i as int))),
        decreases entries.len() - i,
    {
        let e = copy_entry(&entries[i]);
        let key = chars_of(to_lowercase_exec(e.name.as_str()).as_str());
        let ghost ev = entry_view(e);
        let ghost before = entries_view(sorted@);
        let j = find_insertion_point(&sorted, &keys, e.is_dir, &key, Ghost(ev));
        let ghost kk = key@;
        let ghost keys0 = keys@;
        let ghost sorted0 = sorted@;
        sorted.insert(j, e);
        keys.insert(j, key);
        assert forall|k: int| 0 <= k < keys.len() implies #[trigger] keys@[k]@ == unicode_lower(sorted@[k].name@) by {
            if k < j {
            } else if k == j {
                assert(kk == unicode_lower(ev.name));
            } else {
                assert(keys@[k] == keys0[k - 1]);
                assert(sorted@[k] == sorted0[k - 1]);
            }
        }
        proof {
            let prefix = entries_view(entries@.take(i + 1));
            assert(prefix.drop_last() =~= entries_view(entries@.take(i as int)));
            assert(prefix.last() == ev);
            assert(entries_view(sorted@) =~= before.insert(j as int, ev));
        }
        i = i + 1;
    }
    assert(entries@.take(entries@.len() as int) =~= entries@);
    sorted
}

/// `text_lt` is a strict order: irreflexive and transitive.
pub proof fn lemma_text_lt_strict(a: Seq<char>, b: Seq<char>, c: Seq<char>)
    ensures
        !text_lt(a, a),
        text_lt(a, b) && text_lt(b, c) ==> text_lt(a, c),
        text_lt(a, b) ==> !text_lt(b, a),
    decreases a.len(),
{
    if a.len() > 0 && b.len() > 0 && c.len() > 0 {
        lemma_text_lt_strict(a.skip(1), b.skip(1), c.skip(1));
    }
    if a.len() > 0 {
        lemma_text_lt_strict(a.skip(1), a.skip(1), a.skip(1));
    }
    if a.len() > 0 && b.len() > 0 {
        lemma_text_lt_strict(a.skip(1), b.skip(1), b.skip(1));
    }
}

/// `listed_before` is a strict order: asymmetric and transitive.
pub proof fn lemma_listed_before_strict(a: DirEntryView, b: DirEntryView, c: DirEntryView)
    ensures
        listed_before(a, b) ==> !listed_before(b, a),
        listed_before(a, b) && listed_before(b, c) ==> listed_before(a, c),
{
    lemma_text_lt_strict(unicode_lower(a.name), unicode_lower(b.name), unicode_lower(c.name));
}

/// No entry is listed before an entry that precedes it.
pub open spec fn listing_sorted(s: Seq<DirEntryView>) -> bool {
    forall|i: int, j: int| 0 <= i < j < s.len() ==> !listed_before(#[trigger] s[j], #[trigger] s[i])
}

/// Entries before the insertion point are not after `e`; the entry at it,
/// if any, is.
pub proof fn lemma_insertion_point_split(s: Seq<DirEntryView>, e: DirEntryView)
    ensures
        forall|k: int| 0 <= k < insertion_point(s, e) ==> !listed_before(e, #[trigger] s[k]),
        insertion_point(s, e) < s.len() ==> listed_before(e, s[insertion_point(s, e)]),
        0 <= insertion_point(s, e) <= s.len(),
    decreases s.len(),
{
    if s.len() > 0 && !listed_before(e, s[0]) {
        lemma_insertion_point_split(s.skip(1), e);
        assert forall|k: int| 0 <= k < insertion_point(s, e) implies !listed_before(e, #[trigger] s[k]) by {
            if k > 0 {
                assert(s[k] == s.skip(1)[k - 1]);
            }
        }
    }
}

/// Listing order puts directories before files, and orders entries of
/// the same kind by their Unicode-lowercased names: in the sorted
/// entries, no entry is listed before one that precedes it; and sorting
/// keeps every entry (the same number of times).
pub proof fn law_listing_sorted(s: Seq<DirEntryView>)
    ensures
        listing_sorted(sort_entries(s)),
        sort_entries(s).to_multiset() == s.to_multiset(),
    decreases s.len(),
{
    if s.len() > 0 {
        let rest = sort_entries(s.drop_last());
        let e = s.last();
        law_listing_sorted(s.drop_last());
        lemma_insertion_point_split(rest, e);
        let p = insertion_point(rest, e);
        let r = rest.insert(p, e);
        assert forall|i: int, j: int| 0 <= i < j < r.len() implies !listed_before(#[trigger] r[j], #[trigger] r[i]) by {
            if j < p {
                assert(r[i] == rest[i] && r[j] == rest[j]);
            } else if j == p {
                assert(r[i] == rest[i]);
                assert(r[j] == e);
            } else if i == p {
                assert(r[j] == rest[j - 1]);
                if p < rest.len() {
                    lemma_listed_before_strict(rest[j - 1], e, rest[p]);
                    if j - 1 > p {
                        assert(!listed_before(rest[j - 1], rest[p]));
                    }
                    lemma_listed_before_strict(e, rest[p], rest[p]);
                }
            } else if i < p {
                assert(r[i] == rest[i] && r[j] == rest[j - 1]);
            } else {
                assert(r[i] == rest[i - 1] && r[j] == rest[j - 1]);
            }
        }
        vstd::seq_lib::to_multiset_insert(rest, p, e);
        s.drop_last().to_multiset_ensures();
        assert(s =~= s.drop_last().push(e));
    }
}

/// `a` comes no later than `b` in code-point order: `a` is a prefix of
/// `b`, or at the first position where they differ `a` has the smaller
/// code point.
pub open spec fn code_point_le(a: Seq<char>, b: Seq<char>) -> bool {
    ||| (a.len() <= b.len() && b.take(a.len() as int) == a)
    ||| exists|k: int|
        0 <= k < a.len() && k < b.len() && a.take(k) == b.take(k) && (#[trigger] a[k] as u32) < (b[k] as u32)
}

/// `text_lt` is the strict code-point order.
proof fn lemma_text_lt_code_point(a: Seq<char>, b: Seq<char>)
    requires
        text_lt(a, b),
    ensures
        code_point_le(a, b),
    decreases a.len(),
{
    if a.len() == 0 {
        assert(b.take(0) =~= a);
    } else if a[0] != b[0] {
        assert(a.take(0) =~= b.take(0));
        assert(a[0] == a[0]);
    } else {
        let (a1, b1) = (a.skip(1), b.skip(1));
        lemma_text_lt_code_point(a1, b1);
        if a1.len() <= b1.len() && b1.take(a1.len() as int) == a1 {
            assert(b.take(a.len() as int) =~= a) by {
                assert forall|i: int| 0 <= i < a.len() implies #[trigger] b.take(a.len() as int)[i] == a[i] by {
                    if i > 0 {
                        assert(b1.take(a1.len() as int)[i - 1] == a1[i - 1]);
                    }
                }
            }
        } else {
            let k = choose|k: int|
                0 <= k < a1.len() && k < b1.len() && a1.take(k) == b1.take(k) && (#[trigger] a1[k] as u32) < (b1[k] as u32);
            assert(a.take(k + 1) =~= b.take(k + 1)) by {
                assert forall|i: int| 0 <= i < k + 1 implies #[trigger] a.take(k + 1)[i] == b.take(k + 1)[i] by {
                    if i > 0 {
                        assert(a1.take(k)[i - 1] == b1.take(k)[i - 1]);
                    }
                }
            }
            assert(a[k + 1] == a1[k] && b[k + 1] == b1[k]);
        }
    }
}

/// Two strings are equal or one is before the other in `text_lt`.
proof fn lemma_text_lt_total(a: Seq<char>, b: Seq<char>)
    ensures
        a == b || text_lt(a, b) || text_lt(b, a),
    decreases a.len(),
{
    if a.len() > 0 && b.len() > 0 && a[0] == b[0] {
        lemma_text_lt_total(a.skip(1), b.skip(1));
        if a.skip(1) == b.skip(1) {
            assert(a =~= b) by {
                assert forall|i: int| 0 <= i < a.len() implies #[trigger] a[i] == b[i] by {
                    if i > 0 {
                        assert(a.skip(1)[i - 1] == b.skip(1)[i - 1]);
                    }
                }
            }
        }
    } else if a.len() == 0 && b.len() == 0 {
        assert(a =~= b);
    } else if a.len() > 0 && b.len() > 0 {
        lemma_code_points_differ(a[0], b[0]);
    }
}

/// Different characters have different code points.
proof fn lemma_code_points_differ(c: char, d: char)
    requires
        c != d,
    ensures
        (c as u32) != (d as u32),
{
}

/// The listing order, stated over the names: in the sorted entries, a
/// file never comes before a directory, and of two entries of the same
/// kind the earlier one's Unicode-lowercased name comes no later, in
/// code-point order over the whole name, than the later one's.
pub proof fn law_listing_order_by_name(s: Seq<DirEntryView>)
    ensures
        forall|i: int, j: int|
            0 <= i < j < sort_entries(s).len() ==> {
                let (x, y) = (#[trigger] sort_entries(s)[i], #[trigger] sort_entries(s)[j]);
                &&& (y.is_dir ==> x.is_dir)
                &&& (x.is_dir == y.is_dir ==> code_point_le(unicode_lower(x.name), unicode_lower(y.name)))
            },
{
    law_listing_sorted(s);
    let r = sort_entries(s);
    assert forall|i: int, j: int| 0 <= i < j < r.len() implies {
        let (x, y) = (#[trigger] r[i], #[trigger] r[j]);
        &&& (y.is_dir ==> x.is_dir)
        &&& (x.is_dir == y.is_dir ==> code_point_le(unicode_lower(x.name), unicode_lower(y.name)))
    } by {
        let (x, y) = (r[i], r[j]);
        assert(!listed_before(y, x));
        let (lx, ly) = (unicode_lower(x.name), unicode_lower(y.name));
        lemma_text_lt_total(lx, ly);
        if text_lt(lx, ly) {
            lemma_text_lt_code_point(lx, ly);
        } else if lx == ly {
            assert(ly.take(lx.len() as int) =~= lx);
        }
    }
}

/// Every entry keeps its place count through the sort.
pub proof fn lemma_sort_entries_len(s: Seq<DirEntryView>)
    ensures
        sort_entries(s).len() == s.len(),
    decreases s.len(),
{
    if s.len() > 0 {
        lemma_sort_entries_len(s.drop_last());
        lemma_insertion_point_bounds(sort_entries(s.drop_last()), s.last());
    }
}

/// The insertion point lies within the sequence.
pub proof fn lemma_insertion_point_bounds(s: Seq<DirEntryView>, e: DirEntryView)
    ensures
        0 <= insertion_point(s, e) <= s.len(),
    decreases s.len(),
{
    if s.len() > 0 {
        lemma_insertion_point_bounds(s.skip(1), e);
    }
}

/// `s` right-aligned in a field of `width` characters.
pub open spec fn pad_left(s: Seq<char>, width: nat) -> Seq<char> {
    if s.len() < width {
        Seq::new((width - s.len()) as nat, |i: int| ' ') + s
    } else {
        s
    }
}

/// One `list_dir` line: `[D]` and the name for a directory; `[F`, the
/// size right-aligned in 15 columns, `]` and the name for a file.
pub open spec fn listing_line(e: DirEntryView) -> Seq<char> {
    if e.is_dir {
        "[D]                     "@ + e.name + "\n"@
    } else {
        "[F  "@ + pad_left(decimal(e.size as nat), 15) + "]  "@ + e.name + "\n"@
    }
}

/// The lines of a sequence of entries.
pub open spec fn listing_lines(s: Seq<DirEntryView>) -> Seq<char>
    decreases s.len(),
{
    if s.len() == 0 {
        Seq::<char>::empty()
    } else {
        listing_lines(s.drop_last()) + listing_line(s.last())
    }
}

/// The `list_dir` result: the entries in listing order, at most
/// `LIST_DIR_MAX_ENTRIES` of them with a note when there are more, or
/// `(empty directory)`.
pub open spec fn dir_listing_spec(entries: Seq<DirEntryView>) -> Seq<char> {
    let sorted = sort_entries(entries);
    let total = entries.len();
    let out = if total > LIST_DIR_MAX_ENTRIES {
        listing_lines(sorted.take(LIST_DIR_MAX_ENTRIES as int))
            + "\n[truncated: showing first 500 of "@ + decimal(total) + " entries]\n"@
    } else {
        listing_lines(sorted)
    };
    if out.len() == 0 {
        "(empty directory)"@
    } else {
        out
    }
}

fn push_listing_line(out: &mut Vec<char>, e: &DirEntryInfo)
    ensures
        final(out)@ == old(out)@ + listing_line(entry_view(*e)),
{
    if e.is_dir {
        push_str(out, "[D]                     ");
        push_str(out, e.name.as_str());
        push_str(out, "\n");
    } else {
        push_str(out, "[F  ");
        push_padded_decimal(out, e.size, 15);
        push_str(out, "]  ");
        push_str(out, e.name.as_str());
        push_str(out, "\n");
    }
}

/// Formats a directory's entries for the model.
pub fn format_dir_listing(entries: &Vec<DirEntryInfo>) -> (r: String)
    ensures
        r@ == dir_listing_spec(entries_view(entries@)),
{
    let sorted = sort_dir_entries(entries);
    proof {
        lemma_sort_entries_len(entries_view(entries@));
    }
    let total = entries.len();
    let shown = if total > LIST_DIR_MAX_ENTRIES { LIST_DIR_MAX_ENTRIES } else { total };
    let ghost sv = entries_view(sorted@);
    let mut out: Vec<char> = Vec::new();
    let mut i: usize = 0;
    while i < shown
        invariant
            i <= shown <= sorted.len(),
            sv == entries_view(sorted@),
            out@ == listing_lines(sv.take(i as int)),
        decreases shown - i,
    {
        push_listing_line(&mut out, &sorted[i]);
        i = i + 1;
        assert(sv.take(i as int).drop_last() =~= sv.take(i - 1));
    }
    if total > LIST_DIR_MAX_ENTRIES {
        push_str(&mut out, "\n[truncated: showing first 500 of ");
        let d = decimal_exec(total as u64);
        push_chars(&mut out, &d);
        push_str(&mut out, " entries]\n");
    } else {
        assert(sv.take(shown as int) =~= sv);
    }
    if out.len() == 0 {
        return owned("(empty directory)");
    }
    string_of(&out)
}

// ─── Catalog sent to the model ────────────────────────────────────────────

/// The JSON type of a tool parameter.
#[derive(Clone, Copy, Debug, PartialEq, Eq, Structural)]
pub enum ParamKind {
    /// A string.
    Text,
    /// An array of strings.
    TextList,
    /// A string out of `ARTICLE_FORMATS`.
    Choice,
}

/// The values a `Choice` parameter takes.
pub const ARTICLE_FORMATS: [&'static str; 2] = ["markdown", "text"];

/// One parameter of a tool, as described to the model.
#[derive(Clone, Copy, Debug)]
pub struct ToolParam {
    pub name: &'static str,
    pub kind: ParamKind,
    pub description: &'static str,
    pub required: bool,
}

/// The view of a tool parameter: name, kind, description, whether
/// required.
pub open spec fn param_view(p: ToolParam) -> (Seq<char>, ParamKind, Seq<char>, bool) {
    (p.name@, p.kind, p.description@, p.required)
}

/// The built-in tools in catalog order.
pub open spec fn catalog_order() -> Seq<BuiltinTool> {
    seq![BuiltinTool::ReadFile, BuiltinTool::ListDir, BuiltinTool::Glob, BuiltinTool::GrepContent, BuiltinTool::ActiveWindow, BuiltinTool::ListWindows, BuiltinTool::MonitorInfo, BuiltinTool::ReadClipboard, BuiltinTool::WriteFile, BuiltinTool::DeleteFile, BuiltinTool::RunShell, BuiltinTool::WriteClipboard, BuiltinTool::OpenUrl, BuiltinTool::LaunchApp, BuiltinTool::FetchUrl
    ]
}

/// The description of a built-in tool, written for the model.
pub open spec fn tool_description_spec(t: BuiltinTool) -> Seq<char> {
    match t {
        BuiltinTool::ReadFile => "Read the UTF-8 text content of a file. Returns the file's contents (truncated if very large). Use absolute paths."@,
        BuiltinTool::ListDir => "List the entries (files and subdirectories) of a directory. Returns one entry per line: '[D] name' for directories, '[F  size]  name' for files."@,
        BuiltinTool::Glob => "Find files matching a glob pattern. Supports * and ** wildcards. Pattern may be absolute (e.g. 'D:/Work/**/*.rs') or relative when 'root' is given."@,
        BuiltinTool::GrepContent => "Search for a substring inside files matching a glob pattern. Returns matching lines with file path and line number."@,
        BuiltinTool::ActiveWindow => "Get the title and process name of the foreground (currently focused) window on the user's desktop."@,
        BuiltinTool::ListWindows => "List all visible top-level windows on the user's desktop, with title and process name."@,
        BuiltinTool::MonitorInfo => "List all connected monitors with their resolution, position, and primary flag."@,
        BuiltinTool::ReadClipboard => "Read the current text contents of the system clipboard."@,
        BuiltinTool::WriteFile => "Create or overwrite a UTF-8 text file at an absolute path. Requires user approval before running. Use sparingly."@,
        BuiltinTool::DeleteFile => "Delete a single file at an absolute path. Requires user approval. Will not delete directories."@,
        BuiltinTool::RunShell => "Run a shell command and return its stdout, stderr, and exit code. Requires user approval before running. On Windows the command is executed via cmd /C."@,
        BuiltinTool::WriteClipboard => "Replace the current contents of the system clipboard with the given text. Requires user approval."@,
        BuiltinTool::OpenUrl => "Open an http or https URL in the user's default browser. Requires user approval. Other URL schemes are rejected."@,
        BuiltinTool::LaunchApp => "Launch an executable by absolute path or by name (e.g. 'notepad', 'code'). Requires user approval. Returns immediately; output is not captured."@,
        BuiltinTool::FetchUrl => "Fetch an http(s) URL and return the readable article text (Mozilla Readability) as markdown. Use this to read documentation, articles, or any web page the user references. Requires user approval. Only text/html responses are supported; private/loopback hosts are rejected."@,
    }
}

/// The parameters of a built-in tool.
pub open spec fn tool_params_spec(t: BuiltinTool) -> Seq<(Seq<char>, ParamKind, Seq<char>, bool)> {
    match t {
        BuiltinTool::ReadFile => seq![("path"@, ParamKind::Text, "Absolute path to the file."@, true)],
        BuiltinTool::ListDir => seq![("path"@, ParamKind::Text, "Absolute path to the directory."@, true)],
        BuiltinTool::Glob => seq![("pattern"@, ParamKind::Text, "Glob pattern, e.g. '**/*.toml' or 'D:/Work/**/*.rs'."@, true), ("root"@, ParamKind::Text, "Optional base directory for a relative pattern."@, false)],
        BuiltinTool::GrepContent => seq![("needle"@, ParamKind::Text, "Substring to search for (case-insensitive)."@, true), ("pattern"@, ParamKind::Text, "Glob pattern to limit the search, e.g. '**/*.rs'."@, true), ("root"@, ParamKind::Text, "Optional base directory for a relative pattern."@, false)],
        BuiltinTool::ActiveWindow => Seq::empty(),
        BuiltinTool::ListWindows => Seq::empty(),
        BuiltinTool::MonitorInfo => Seq::empty(),
        BuiltinTool::ReadClipboard => Seq::empty(),
        BuiltinTool::WriteFile => seq![("path"@, ParamKind::Text, "Absolute path."@, true), ("content"@, ParamKind::Text, "Full file contents to write."@, true)],
        BuiltinTool::DeleteFile => seq![("path"@, ParamKind::Text, "Absolute path to the file."@, true)],
        BuiltinTool::RunShell => seq![("command"@, ParamKind::Text, "Full command line to run."@, true)],
        BuiltinTool::WriteClipboard => seq![("text"@, ParamKind::Text, "Text to put on the clipboard."@, true)],
        BuiltinTool::OpenUrl => seq![("url"@, ParamKind::Text, "Full http or https URL."@, true)],
        BuiltinTool::LaunchApp => seq![("path"@, ParamKind::Text, "Absolute path or executable name on PATH."@, true), ("args"@, ParamKind::TextList, "Optional arguments to pass to the executable."@, false)],
        BuiltinTool::FetchUrl => seq![("url"@, ParamKind::Text, "Full http or https URL."@, true), ("format"@, ParamKind::Choice, "Output format. Defaults to 'markdown'."@, false)],
    }
}

impl BuiltinTool {
    /// All built-in tools, in catalog order.
    pub fn all() -> (r: Vec<BuiltinTool>)
        ensures
            r@ == catalog_order(),
    {
        let r = vec![BuiltinTool::ReadFile, BuiltinTool::ListDir, BuiltinTool::Glob, BuiltinTool::GrepContent, BuiltinTool::ActiveWindow, BuiltinTool::ListWindows, BuiltinTool::MonitorInfo, BuiltinTool::ReadClipboard, BuiltinTool::WriteFile, BuiltinTool::DeleteFile, BuiltinTool::RunShell, BuiltinTool::WriteClipboard, BuiltinTool::OpenUrl, BuiltinTool::LaunchApp, BuiltinTool::FetchUrl];
        assert(r@ =~= catalog_order());
        r
    }

    /// The name under which the model calls this tool.
    pub fn name(&self) -> (r: &'static str)
        ensures
            r@ == builtin_name(*self),
    {
        match self {
            BuiltinTool::ReadFile => "read_file",
            BuiltinTool::ListDir => "list_dir",
            BuiltinTool::Glob => "glob",
            BuiltinTool::GrepContent => "grep_content",
            BuiltinTool::ActiveWindow => "active_window",
            BuiltinTool::ListWindows => "list_windows",
            BuiltinTool::MonitorInfo => "monitor_info",
            BuiltinTool::ReadClipboard => "read_clipboard",
            BuiltinTool::WriteFile => "write_file",
            BuiltinTool::DeleteFile => "delete_file",
            BuiltinTool::RunShell => "run_shell",
            BuiltinTool::WriteClipboard => "write_clipboard",
            BuiltinTool::OpenUrl => "open_url",
            BuiltinTool::LaunchApp => "launch_app",
            BuiltinTool::FetchUrl => "fetch_url",
        }
    }

    /// The description of this tool, written for the model.
    pub fn description(&self) -> (r: &'static str)
        ensures
            r@ == tool_description_spec(*self),
    {
        match self {
            BuiltinTool::ReadFile => "Read the UTF-8 text content of a file. Returns the file's contents (truncated if very large). Use absolute paths.",
            BuiltinTool::ListDir => "List the entries (files and subdirectories) of a directory. Returns one entry per line: '[D] name' for directories, '[F  size]  name' for files.",
            BuiltinTool::Glob => "Find files matching a glob pattern. Supports * and ** wildcards. Pattern may be absolute (e.g. 'D:/Work/**/*.rs') or relative when 'root' is given.",
            BuiltinTool::GrepContent => "Search for a substring inside files matching a glob pattern. Returns matching lines with file path and line number.",
            BuiltinTool::ActiveWindow => "Get the title and process name of the foreground (currently focused) window on the user's desktop.",
            BuiltinTool::ListWindows => "List all visible top-level windows on the user's desktop, with title and process name.",
            BuiltinTool::MonitorInfo => "List all connected monitors with their resolution, position, and primary flag.",
            BuiltinTool::ReadClipboard => "Read the current text contents of the system clipboard.",
            BuiltinTool::WriteFile => "Create or overwrite a UTF-8 text file at an absolute path. Requires user approval before running. Use sparingly.",
            BuiltinTool::DeleteFile => "Delete a single file at an absolute path. Requires user approval. Will not delete directories.",
            BuiltinTool::RunShell => "Run a shell command and return its stdout, stderr, and exit code. Requires user approval before running. On Windows the command is executed via cmd /C.",
            BuiltinTool::WriteClipboard => "Replace the current contents of the system clipboard with the given text. Requires user approval.",
            BuiltinTool::OpenUrl => "Open an http or https URL in the user's default browser. Requires user approval. Other URL schemes are rejected.",
            BuiltinTool::LaunchApp => "Launch an executable by absolute path or by name (e.g. 'notepad', 'code'). Requires user approval. Returns immediately; output is not captured.",
            BuiltinTool::FetchUrl => "Fetch an http(s) URL and return the readable article text (Mozilla Readability) as markdown. Use this to read documentation, articles, or any web page the user references. Requires user approval. Only text/html responses are supported; private/loopback hosts are rejected.",
        }
    }

    /// The parameters of this tool.
    pub fn params(&self) -> (r: Vec<ToolParam>)
        ensures
            r@.map_values(|p: ToolParam| param_view(p)) == tool_params_spec(*self),
    {
        let r = match self {
            BuiltinTool::ReadFile => vec![ToolParam { name: "path", kind: ParamKind::Text, description: "Absolute path to the file.", required: true }],
            BuiltinTool::ListDir => vec![ToolParam { name: "path", kind: ParamKind::Text, description: "Absolute path to the directory.", required: true }],
            BuiltinTool::Glob => vec![ToolParam { name: "pattern", kind: ParamKind::Text, description: "Glob pattern, e.g. '**/*.toml' or 'D:/Work/**/*.rs'.", required: true }, ToolParam { name: "root", kind: ParamKind::Text, description: "Optional base directory for a relative pattern.", required: false }],
            BuiltinTool::GrepContent => vec![ToolParam { name: "needle", kind: ParamKind::Text, description: "Substring to search for (case-insensitive).", required: true }, ToolParam { name: "pattern", kind: ParamKind::Text, description: "Glob pattern to limit the search, e.g. '**/*.rs'.", required: true }, ToolParam { name: "root", kind: ParamKind::Text, description: "Optional base directory for a relative pattern.", required: false }],
            BuiltinTool::ActiveWindow => Vec::new(),
            BuiltinTool::ListWindows => Vec::new(),
            BuiltinTool::MonitorInfo => Vec::new(),
            BuiltinTool::ReadClipboard => Vec::new(),
            BuiltinTool::WriteFile => vec![ToolParam { name: "path", kind: ParamKind::Text, description: "Absolute path.", required: true }, ToolParam { name: "content", kind: ParamKind::Text, description: "Full file contents to write.", required: true }],
            BuiltinTool::DeleteFile => vec![ToolParam { name: "path", kind: ParamKind::Text, description: "Absolute path to the file.", required: true }],
            BuiltinTool::RunShell => vec![ToolParam { name: "command", kind: ParamKind::Text, description: "Full command line to run.", required: true }],
            BuiltinTool::WriteClipboard => vec![ToolParam { name: "text", kind: ParamKind::Text, description: "Text to put on the clipboard.", required: true }],
            BuiltinTool::OpenUrl => vec![ToolParam { name: "url", kind: ParamKind::Text, description: "Full http or https URL.", required: true }],
            BuiltinTool::LaunchApp => vec![ToolParam { name: "path", kind: ParamKind::Text, description: "Absolute path or executable name on PATH.", required: true }, ToolParam { name: "args", kind: ParamKind::TextList, description: "Optional arguments to pass to the executable.", required: false }],
            BuiltinTool::FetchUrl => vec![ToolParam { name: "url", kind: ParamKind::Text, description: "Full http or https URL.", required: true }, ToolParam { name: "format", kind: ParamKind::Choice, description: "Output format. Defaults to 'markdown'.", required: false }],
        };
        assert(r@.map_values(|p: ToolParam| param_view(p)) =~= tool_params_spec(*self));
        r
    }
}

/// Distinct built-in tools have distinct names.
pub proof fn lemma_builtin_names_distinct(a: BuiltinTool, b: BuiltinTool)
    ensures
        builtin_name(a) == builtin_name(b) ==> a == b,
{
    reveal_strlit("read_file");
    reveal_strlit("list_dir");
    reveal_strlit("glob");
    reveal_strlit("grep_content");
    reveal_strlit("active_window");
    reveal_strlit("list_windows");
    reveal_strlit("monitor_info");
    reveal_strlit("read_clipboard");
    reveal_strlit("write_file");
    reveal_strlit("delete_file");
    reveal_strlit("run_shell");
    reveal_strlit("write_clipboard");
    reveal_strlit("open_url");
    reveal_strlit("launch_app");
    reveal_strlit("fetch_url");
    let na = builtin_name(a);
    let nb = builtin_name(b);
    if na == nb {
        assert(na.len() == nb.len() && na[0] == nb[0] && na[1] == nb[1]);
    }
}

/// Every tool the catalog advertises is dispatched to that very tool, and
/// needs approval exactly when the catalog marks it so.
pub proof fn law_catalog_routes_to_itself(i: int)
    requires
        0 <= i < catalog_order().len(),
    ensures
        route_tool_spec(builtin_name(catalog_order()[i])) == ToolRoute::Builtin(catalog_order()[i]),
        is_destructive_spec(builtin_name(catalog_order()[i])) == builtin_needs_approval(catalog_order()[i]),
{
    let t = catalog_order()[i];
    law_builtin_route_and_approval(t);
    let c = choose|u: BuiltinTool| builtin_name(u) == builtin_name(t);
    lemma_builtin_names_distinct(c, t);
}

/// A built-in tool's description says "Requires user approval" exactly
/// when a call of the tool is destructive and needs the user's approval.
pub proof fn law_description_mentions_approval(t: BuiltinTool)
    ensures
        crate::text::contains(tool_description_spec(t), "Requires user approval"@) == builtin_needs_approval(t),
        crate::text::contains(tool_description_spec(t), "Requires user approval"@) == is_destructive_spec(
            builtin_name(t),
        ),
{
    law_builtin_route_and_approval(t);
    reveal_strlit("Requires user approval");
    let p = "Requires user approval"@;
    let s = tool_description_spec(t);
    match t {
        BuiltinTool::ReadFile => {
            reveal_strlit("Read the UTF-8 text content of a file. Returns the file's contents (truncated if very large). Use absolute paths.");
            assert forall|i: int| !#[trigger] crate::text::occurs_at(s, p, i) by {
                if crate::text::occurs_at(s, p, i) {
                    assert(s.subrange(i, i + p.len())[2] == p[2]);
                    assert(s[i + 2] == 'q');
                }
            }
        },
        BuiltinTool::ListDir => {
            reveal_strlit("List the entries (files and subdirectories) of a directory. Returns one entry per line: '[D] name' for directories, '[F  size]  name' for files.");
            assert forall|i: int| !#[trigger] crate::text::occurs_at(s, p, i) by {
                if crate::text::occurs_at(s, p, i) {
                    assert(s.subrange(i, i + p.len())[2] == p[2]);
                    assert(s[i + 2] == 'q');
                }
            }
        },
        BuiltinTool::Glob => {
            reveal_strlit("Find files matching a glob pattern. Supports * and ** wildcards. Pattern may be absolute (e.g. 'D:/Work/**/*.rs') or relative when 'root' is given.");
            assert forall|i: int| !#[trigger] crate::text::occurs_at(s, p, i) by {
                if crate::text::occurs_at(s, p, i) {
                    assert(s.subrange(i, i + p.len())[2] == p[2]);
                    assert(s[i + 2] == 'q');
                }
            }
        },
        BuiltinTool::GrepContent => {
            reveal_strlit("Search for a substring inside files matching a glob pattern. Returns matching lines with file path and line number.");
            assert forall|i: int| !#[trigger] crate::text::occurs_at(s, p, i) by {
                if crate::text::occurs_at(s, p, i) {
                    assert(s.subrange(i, i + p.len())[2] == p[2]);
                    assert(s[i + 2] == 'q');
                }
            }
        },
        BuiltinTool::ActiveWindow => {
            reveal_strlit("Get the title and process name of the foreground (currently focused) window on the user's desktop.");
            assert forall|i: int| !#[trigger] crate::text::occurs_at(s, p, i) by {
                if crate::text::occurs_at(s, p, i) {
                    assert(s.subrange(i, i + p.len())[2] == p[2]);
                    assert(s[i + 2] == 'q');
                }
            }
        },
        BuiltinTool::ListWindows => {
            reveal_strlit("List all visible top-level windows on the user's desktop, with title and process name.");
            assert forall|i: int| !#[trigger] crate::text::occurs_at(s, p, i) by {
                if crate::text::occurs_at(s, p, i) {
                    assert(s.subrange(i, i + p.len())[2] == p[2]);
                    assert(s[i + 2] == 'q');
                }
            }
        },
        BuiltinTool::MonitorInfo => {
            reveal_strlit("List all connected monitors with their resolution, position, and primary flag.");
            assert forall|i: int| !#[trigger] crate::text::occurs_at(s, p, i) by {
                if crate::text::occurs_at(s, p, i) {
                    assert(s.subrange(i, i + p.len())[2] == p[2]);
                    assert(s[i + 2] == 'q');
                }
            }
        },
        BuiltinTool::ReadClipboard => {
            reveal_strlit("Read the current text contents of the system clipboard.");
            assert forall|i: int| !#[trigger] crate::text::occurs_at(s, p, i) by {
                if crate::text::occurs_at(s, p, i) {
                    assert(s.subrange(i, i + p.len())[2] == p[2]);
                    assert(s[i + 2] == 'q');
                }
            }
        },
        BuiltinTool::WriteFile => {
            reveal_strlit("Create or overwrite a UTF-8 text file at an absolute path. Requires user approval before running. Use sparingly.");
            assert(s.subrange(59, 81) =~= p);
            assert(crate::text::occurs_at(s, p, 59));
        },
        BuiltinTool::DeleteFile => {
            reveal_strlit("Delete a single file at an absolute path. Requires user approval. Will not delete directories.");
            assert(s.subrange(42, 64) =~= p);
            assert(crate::text::occurs_at(s, p, 42));
        },
        BuiltinTool::RunShell => {
            reveal_strlit("Run a shell command and return its stdout, stderr, and exit code. Requires user approval before running. On Windows the command is executed via cmd /C.");
            assert(s.subrange(66, 88) =~= p);
            assert(crate::text::occurs_at(s, p, 66));
        },
        BuiltinTool::WriteClipboard => {
            reveal_strlit("Replace the current contents of the system clipboard with the given text. Requires user approval.");
            assert(s.subrange(74, 96) =~= p);
            assert(crate::text::occurs_at(s, p, 74));
        },
        BuiltinTool::OpenUrl => {
            reveal_strlit("Open an http or https URL in the user's default browser. Requires user approval. Other URL schemes are rejected.");
            assert(s.subrange(57, 79) =~= p);
            assert(crate::text::occurs_at(s, p, 57));
        },
        BuiltinTool::LaunchApp => {
            reveal_strlit("Launch an executable by absolute path or by name (e.g. 'notepad', 'code'). Requires user approval. Returns immediately; output is not captured.");
            assert(s.subrange(75, 97) =~= p);
            assert(crate::text::occurs_at(s, p, 75));
        },
        BuiltinTool::FetchUrl => {
            reveal_strlit("Fetch an http(s) URL and return the readable article text (Mozilla Readability) as markdown. Use this to read documentation, articles, or any web page the user references. Requires user approval. Only text/html responses are supported; private/loopback hosts are rejected.");
            assert(s.subrange(172, 194) =~= p);
            assert(crate::text::occurs_at(s, p, 172));
        },
    }
}

} // verus!
