use wren::tools::{
    format_active_window, format_monitor_line, format_monitor_list, format_window_list, process_file_name, WindowInfo,
    LIST_WINDOWS_MAX,
};

use wren::tools::{fetch_target_from_parts, UrlParts};
use wren::ip_literal::parse_ip_literal;
use wren::tools::{
    active_window, append_capped, article_format, check_fetch_host, check_fetch_response, check_grep_needle,
    check_open_url, check_shell_command, clipboard_read_result, clipboard_write_report, content_type_is_html,
    delete_directory_refusal, extract_article, fetch_failure_message, format_article, format_dir_listing,
    format_shell_output, glob_report, grep_entry, grep_line_matches, grep_needle_lower, grep_report,
    is_blocked_ip, is_destructive, launch_report, list_windows, monitor_info, normalize_fetch_host,
    parse_fetch_url, read_file_text, resolve_pattern, route_tool, shell_timeout_error, tool_error_result,
    trim_to_limit, unknown_tool_error, validate_fetch_host, check_redirect_host, write_file_report, ArticleFormat, BuiltinTool, DirEntryInfo, IpAddress,
    ParamKind, ToolRoute, FETCH_MAX_BYTES, FETCH_RESULT_MAX_BYTES,
};

// ─── is_destructive ────────────────────────────────────────────────────────

#[test]
fn fetch_url_is_destructive() {
    assert!(is_destructive("fetch_url"));
}

#[test]
fn read_only_tools_are_not_destructive() {
    assert!(!is_destructive("read_file"));
    assert!(!is_destructive("active_window"));
    assert!(!is_destructive("unknown_tool"));
}

#[test]
fn is_destructive_marks_every_built_in_correctly() {
    for name in [
        "read_file",
        "list_dir",
        "glob",
        "grep_content",
        "active_window",
        "list_windows",
        "monitor_info",
        "read_clipboard",
    ] {
        assert!(!is_destructive(name), "{name} should not be destructive");
    }
    for name in [
        "write_file",
        "delete_file",
        "run_shell",
        "write_clipboard",
        "open_url",
        "launch_app",
        "fetch_url",
    ] {
        assert!(is_destructive(name), "{name} should be destructive");
    }
}

#[test]
fn is_destructive_treats_every_mcp_tool_as_destructive() {
    assert!(is_destructive("mcp__syvault__get_secret"));
    assert!(is_destructive("mcp__ghostface__deploy"));
    assert!(!is_destructive("mcp__"));
    assert!(!is_destructive("mcp_built_in_lookalike"));
}

#[test]
fn catalog_names_agree_with_approval_and_routing() {
    let all = BuiltinTool::all();
    assert_eq!(all.len(), 15);
    for t in all {
        assert_eq!(is_destructive(t.name()), t.needs_approval());
        assert_eq!(route_tool(t.name()), ToolRoute::Builtin(t));
        assert_eq!(BuiltinTool::from_name(t.name()), Some(t));
    }
}

#[test]
fn routing_sends_mcp_names_to_registry_and_rejects_unknown() {
    assert_eq!(route_tool("mcp__svr__tool"), ToolRoute::Mcp);
    assert_eq!(route_tool("definitely_not_a_real_tool"), ToolRoute::Unknown);
    assert_eq!(unknown_tool_error("definitely_not_a_real_tool"), "Unknown tool: definitely_not_a_real_tool");
    assert_eq!(tool_error_result("Unknown tool: x"), "Error: Unknown tool: x");
}

#[test]
fn catalog_describes_parameters() {
    let params = BuiltinTool::FetchUrl.params();
    assert_eq!(params.len(), 2);
    assert_eq!(params[0].name, "url");
    assert!(params[0].required);
    assert_eq!(params[1].name, "format");
    assert_eq!(params[1].kind, ParamKind::Choice);
    assert!(!params[1].required);
    assert_eq!(BuiltinTool::LaunchApp.params()[1].kind, ParamKind::TextList);
    assert!(BuiltinTool::ActiveWindow.params().is_empty());
    assert!(BuiltinTool::FetchUrl.description().contains("Mozilla Readability"));
}

#[test]
fn desktop_tools_report_platform_limits() {
    assert_eq!(active_window(), Err("active_window is only implemented on Windows".to_string()));
    assert_eq!(list_windows(), Err("list_windows is only implemented on Windows".to_string()));
    assert_eq!(monitor_info(), Err("monitor_info is only implemented on Windows".to_string()));
}

fn window(title: &str, pid: u32, process: Option<&str>) -> WindowInfo {
    WindowInfo { title: title.to_string(), pid, process: process.map(|p| p.to_string()) }
}

#[test]
fn window_list_skips_blank_titles_and_pads_pids() {
    let ws = vec![
        window("Notepad", 1234, Some("notepad.exe")),
        window("   ", 5, Some("ghost.exe")),
        window("Calc", 42, None),
        window("", 7, None),
    ];
    assert_eq!(
        format_window_list(&ws),
        "[  1234] notepad.exe \u{2014} Notepad\n[    42] <unknown> \u{2014} Calc\n"
    );
}

#[test]
fn window_list_wide_pid_is_not_cut() {
    let ws = vec![window("Editor", 12345678, Some("code.exe"))];
    assert_eq!(format_window_list(&ws), "[12345678] code.exe \u{2014} Editor\n");
}

#[test]
fn window_list_empty_or_all_blank() {
    assert_eq!(format_window_list(&Vec::new()), "(no visible windows)");
    let ws = vec![window(" \t", 1, None), window("", 2, Some("x.exe"))];
    assert_eq!(format_window_list(&ws), "(no visible windows)");
}

#[test]
fn window_list_truncates_after_the_cap() {
    let mut ws = Vec::new();
    for i in 0..101u32 {
        ws.push(window(&format!("w{i}"), i, Some("a.exe")));
    }
    ws.push(window("  ", 999, None));
    let out = format_window_list(&ws);
    assert_eq!(LIST_WINDOWS_MAX, 100);
    let lines: Vec<&str> = out.lines().collect();
    assert_eq!(lines.len(), 102);
    assert_eq!(lines[0], "[     0] a.exe \u{2014} w0");
    assert_eq!(lines[99], "[    99] a.exe \u{2014} w99");
    assert!(!out.contains("w100"));
    assert!(out.ends_with("\n\n[truncated: showing first 100 of 101 windows]\n"));
}

#[test]
fn window_list_exactly_at_cap_has_no_note() {
    let ws: Vec<WindowInfo> = (0..100u32).map(|i| window("t", i, None)).collect();
    let out = format_window_list(&ws);
    assert_eq!(out.lines().count(), 100);
    assert!(!out.contains("truncated"));
}

#[test]
fn monitor_line_primary_and_secondary() {
    assert_eq!(format_monitor_line(0, 0, 1920, 1080, true), "* 1920x1080 @ (0, 0)  [primary]");
    assert_eq!(format_monitor_line(-1280, -200, 0, 824, false), "  1280x1024 @ (-1280, -200)");
}

#[test]
fn monitor_list_joins_lines() {
    assert_eq!(format_monitor_list(&Vec::new()), "(no monitors found)");
    let lines = vec![
        format_monitor_line(0, 0, 2560, 1440, true),
        format_monitor_line(2560, 0, 4480, 1080, false),
    ];
    assert_eq!(
        format_monitor_list(&lines),
        "* 2560x1440 @ (0, 0)  [primary]\n  1920x1080 @ (2560, 0)"
    );
}

#[test]
fn active_window_formats() {
    assert_eq!(format_active_window(None), "(no foreground window)");
    assert_eq!(
        format_active_window(Some(("Inbox - Mail".to_string(), 4321, Some("outlook.exe".to_string())))),
        "title: Inbox - Mail\nprocess: outlook.exe\npid: 4321"
    );
    assert_eq!(
        format_active_window(Some(("".to_string(), 0, None))),
        "title: \nprocess: <unknown>\npid: 0"
    );
}

#[test]
fn process_file_name_takes_last_component() {
    assert_eq!(process_file_name("C:\\Windows\\explorer.exe"), "explorer.exe");
    assert_eq!(process_file_name("/usr/bin/zsh"), "zsh");
    assert_eq!(process_file_name("C:\\Tools/mixed\\app.exe"), "app.exe");
    assert_eq!(process_file_name("plain.exe"), "plain.exe");
    assert_eq!(process_file_name("C:\\dir\\"), "");
    assert_eq!(process_file_name(""), "");
}

// ─── Glob, grep, list_dir, read_file ───────────────────────────────────────

#[test]
fn resolve_pattern_joins_root_with_one_separator() {
    assert_eq!(resolve_pattern("**/*.rs", Some("D:/Work")), "D:/Work/**/*.rs");
    assert_eq!(resolve_pattern("**/*.rs", Some("D:/Work/")), "D:/Work/**/*.rs");
    assert_eq!(resolve_pattern("*.rs", Some("C:\\src\\")), "C:\\src\\*.rs");
    assert_eq!(resolve_pattern("*.rs", Some("")), "*.rs");
    assert_eq!(resolve_pattern("/abs/*.rs", None), "/abs/*.rs");
}

#[test]
fn glob_report_lists_matches_or_says_none() {
    assert_eq!(glob_report("*.x", &vec![]), "(no matches for '*.x')");
    assert_eq!(glob_report("*", &vec!["a".to_string(), "b".to_string()]), "a\nb");
    let many: Vec<String> = (0..205).map(|i| format!("p{i}")).collect();
    let out = glob_report("*", &many);
    assert!(out.starts_with("p0\np1\n"));
    assert!(out.contains("p199"));
    assert!(!out.contains("p200"));
    assert!(out.ends_with("\n\n[truncated: showing first 200 of 205 matches]"));
}

#[test]
fn grep_pieces_match_and_format() {
    assert_eq!(check_grep_needle(""), Err("needle must be non-empty".to_string()));
    assert!(check_grep_needle("x").is_ok());
    let needle = grep_needle_lower("TODO");
    assert_eq!(needle, "todo");
    assert!(grep_line_matches("// Todo: fix", &needle));
    assert!(!grep_line_matches("done", &needle));
    assert_eq!(grep_entry("src/a.rs", 3, "let x = 1;"), "src/a.rs:3: let x = 1;");
    let long = "y".repeat(400);
    assert_eq!(grep_entry("f", 1, &long), format!("f:1: {}…", "y".repeat(300)));
    assert_eq!(grep_report("n", "*.rs", &vec![], 0), "(no matches for 'n' in '*.rs')");
    assert_eq!(
        grep_report("n", "*.rs", &vec!["a:1: n".to_string()], 101),
        "a:1: n\n\n[truncated: showing first 100 of 101 matches]"
    );
}

fn entry(is_dir: bool, name: &str, size: u64) -> DirEntryInfo {
    DirEntryInfo { is_dir, name: name.to_string(), size }
}

#[test]
fn dir_listing_puts_directories_first_then_names_case_insensitively() {
    let entries = vec![
        entry(false, "b.txt", 12),
        entry(true, "src", 0),
        entry(false, "A.md", 7),
        entry(true, "Docs", 0),
    ];
    let out = format_dir_listing(&entries);
    let d = format!("[D]{}", " ".repeat(21));
    let expected = format!(
        "{d}Docs\n{d}src\n[F  {:>15}]  A.md\n[F  {:>15}]  b.txt\n",
        7, 12
    );
    assert_eq!(out, expected);
}

#[test]
fn dir_listing_empty_and_truncated() {
    assert_eq!(format_dir_listing(&vec![]), "(empty directory)");
    let many: Vec<DirEntryInfo> = (0..501).map(|i| entry(false, &format!("f{i:04}"), 1)).collect();
    let out = format_dir_listing(&many);
    assert!(out.ends_with("\n[truncated: showing first 500 of 501 entries]\n"));
    assert!(!out.contains("f0500"));
}

#[test]
fn read_file_text_decodes_and_truncates() {
    assert_eq!(read_file_text(b"hello"), "hello");
    assert_eq!(read_file_text(&[b'a', 0xff, b'b']), "a\u{fffd}b");
    let big = vec![b'z'; 50_010];
    let out = read_file_text(&big);
    assert!(out.starts_with(&"z".repeat(50_000)));
    assert!(out.ends_with("\n\n[truncated: showing first 50000 of 50010 bytes]"));
}

// ─── Shell ─────────────────────────────────────────────────────────────────

#[test]
fn trim_to_limit_keeps_short_text_and_marks_cuts() {
    assert_eq!(trim_to_limit("abc", 5), "abc");
    assert_eq!(trim_to_limit("abcdef", 3), "abc\n[truncated: showing first 3 of 6 bytes]");
}

#[test]
fn shell_output_has_code_streams_and_placeholder() {
    assert_eq!(format_shell_output(Some(0), "hi", ""), "exit: 0\n--- stdout ---\nhi\n");
    assert_eq!(
        format_shell_output(Some(-1), "a\n", "oops"),
        "exit: -1\n--- stdout ---\na\n--- stderr ---\noops"
    );
    assert_eq!(format_shell_output(None, "", ""), "exit: ?\n(no output)\n");
    assert_eq!(check_shell_command("   "), Err("empty command".to_string()));
    assert!(check_shell_command("ls").is_ok());
    assert_eq!(shell_timeout_error(), "Command exceeded 30s timeout and was killed.");
}

#[test]
fn other_tool_reports_have_their_exact_text() {
    assert_eq!(write_file_report("/tmp/x", "héllo"), "Wrote 6 bytes to /tmp/x");
    assert_eq!(
        delete_directory_refusal("/tmp"),
        "/tmp is a directory; refusing to delete (use a shell command if you really mean it)"
    );
    assert_eq!(clipboard_read_result(String::new()), "(clipboard is empty)");
    assert_eq!(clipboard_read_result("x".to_string()), "x");
    assert_eq!(clipboard_write_report("héllo"), "Wrote 5 characters to the clipboard.");
    assert_eq!(check_open_url("ftp://x"), Err("only http/https URLs are allowed".to_string()));
    assert!(check_open_url("https://x").is_ok());
    assert_eq!(launch_report("code", None), "Launched code");
    assert_eq!(launch_report("code", Some(&vec![])), "Launched code");
    assert_eq!(
        launch_report("code", Some(&vec![".".to_string(), "-n".to_string()])),
        "Launched code . -n"
    );
}

// ─── fetch_url: host policy ────────────────────────────────────────────────

#[test]
fn ipv4_loopback_is_blocked() {
    assert!(is_blocked_ip(IpAddress::V4([127, 0, 0, 1])));
    assert!(is_blocked_ip(IpAddress::V4([127, 1, 2, 3])));
}

#[test]
fn ipv4_rfc1918_is_blocked() {
    for ip in [[10, 0, 0, 1], [172, 16, 0, 1], [172, 31, 255, 254], [192, 168, 1, 1]] {
        assert!(is_blocked_ip(IpAddress::V4(ip)), "{ip:?} should be blocked");
    }
}

#[test]
fn ipv4_link_local_is_blocked() {
    assert!(is_blocked_ip(IpAddress::V4([169, 254, 1, 1])));
}

#[test]
fn ipv4_multicast_and_broadcast_are_blocked() {
    assert!(is_blocked_ip(IpAddress::V4([224, 0, 0, 1])));
    assert!(is_blocked_ip(IpAddress::V4([255, 255, 255, 255])));
}

#[test]
fn ipv4_unspecified_is_blocked() {
    assert!(is_blocked_ip(IpAddress::V4([0, 0, 0, 0])));
}

#[test]
fn ipv4_carrier_grade_nat_is_blocked() {
    assert!(is_blocked_ip(IpAddress::V4([100, 64, 0, 1])));
    assert!(is_blocked_ip(IpAddress::V4([100, 127, 255, 254])));
}

#[test]
fn ipv4_public_is_allowed() {
    assert!(!is_blocked_ip(IpAddress::V4([8, 8, 8, 8])));
    assert!(!is_blocked_ip(IpAddress::V4([1, 1, 1, 1])));
    assert!(!is_blocked_ip(IpAddress::V4([100, 63, 255, 255])));
    assert!(!is_blocked_ip(IpAddress::V4([100, 128, 0, 1])));
}

#[test]
fn ipv6_loopback_and_unspecified_are_blocked() {
    assert!(is_blocked_ip(IpAddress::V6([0, 0, 0, 0, 0, 0, 0, 1])));
    assert!(is_blocked_ip(IpAddress::V6([0, 0, 0, 0, 0, 0, 0, 0])));
}

#[test]
fn ipv6_unique_local_is_blocked() {
    assert!(is_blocked_ip(IpAddress::V6([0xfc00, 0, 0, 0, 0, 0, 0, 1])));
    assert!(is_blocked_ip(IpAddress::V6([0xfd12, 0x3456, 0x789a, 0, 0, 0, 0, 1])));
}

#[test]
fn ipv6_link_local_is_blocked() {
    assert!(is_blocked_ip(IpAddress::V6([0xfe80, 0, 0, 0, 0, 0, 0, 1])));
}

#[test]
fn ipv6_multicast_is_blocked() {
    assert!(is_blocked_ip(IpAddress::V6([0xff02, 0, 0, 0, 0, 0, 0, 1])));
}

#[test]
fn ipv6_mapped_v4_loopback_is_blocked() {
    // ::ffff:127.0.0.1
    assert!(is_blocked_ip(IpAddress::V6([0, 0, 0, 0, 0, 0xffff, 0x7f00, 0x0001])));
}

#[test]
fn ipv6_public_is_allowed() {
    assert!(!is_blocked_ip(IpAddress::V6([0x2001, 0x4860, 0x4860, 0, 0, 0, 0, 0x8888])));
    // ::ffff:8.8.8.8 maps to a public address.
    assert!(!is_blocked_ip(IpAddress::V6([0, 0, 0, 0, 0, 0xffff, 0x0808, 0x0808])));
}

#[test]
fn host_normalisation_strips_brackets_dots_and_case() {
    assert_eq!(normalize_fetch_host("[::1]"), "::1");
    assert_eq!(normalize_fetch_host("Example.COM."), "example.com");
    assert_eq!(normalize_fetch_host("."), "");
    assert_eq!(normalize_fetch_host("["), "[");
}

#[test]
fn host_policy_allows_public_names() {
    assert!(check_fetch_host("example.com", None).is_ok());
    assert!(check_fetch_host("docs.rs", None).is_ok());
    assert!(check_fetch_host(&normalize_fetch_host("example.com."), None).is_ok());
    assert!(check_fetch_host("8.8.8.8", Some(IpAddress::V4([8, 8, 8, 8]))).is_ok());
}

#[test]
fn host_policy_blocks_localhost_aliases() {
    for h in ["localhost", "LOCALHOST", "foo.localhost", "router.local", "svc.internal"] {
        let n = normalize_fetch_host(h);
        assert_eq!(
            check_fetch_host(&n, None),
            Err(format!("host {n} is on the internal-name blocklist"))
        );
    }
}

#[test]
fn host_policy_blocks_private_addresses() {
    assert_eq!(
        check_fetch_host("127.0.0.1", Some(IpAddress::V4([127, 0, 0, 1]))),
        Err("host 127.0.0.1 resolves to a private or loopback address".to_string())
    );
    assert!(check_fetch_host("::1", Some(IpAddress::V6([0, 0, 0, 0, 0, 0, 0, 1]))).is_err());
    assert!(check_fetch_host("fc00::1", Some(IpAddress::V6([0xfc00, 0, 0, 0, 0, 0, 0, 1]))).is_err());
}

#[test]
fn host_policy_rejects_empty() {
    assert_eq!(check_fetch_host("", None), Err("URL has no host".to_string()));
    assert_eq!(check_fetch_host(&normalize_fetch_host("."), None), Err("URL has no host".to_string()));
}

// ─── fetch_url: URL ────────────────────────────────────────────────────────

#[test]
fn parse_url_accepts_http_and_https() {
    let t = parse_fetch_url("http://example.com/").unwrap();
    assert_eq!(t.url, "http://example.com/");
    assert_eq!(t.host, "example.com");
    assert!(parse_fetch_url("https://example.com/foo?q=1").is_ok());
    assert_eq!(parse_fetch_url("  https://example.com  ").unwrap().url, "https://example.com/");
}

#[test]
fn parse_url_rejects_other_schemes() {
    assert_eq!(
        parse_fetch_url("ftp://example.com/").unwrap_err(),
        "unsupported URL scheme 'ftp'; only http/https are allowed"
    );
    assert!(parse_fetch_url("file:///etc/passwd").unwrap_err().contains("unsupported URL scheme"));
    assert!(parse_fetch_url("javascript:alert(1)").is_err());
    assert!(parse_fetch_url("data:text/html,<h1>hi</h1>").is_err());
}

#[test]
fn parse_url_rejects_empty_and_malformed() {
    assert_eq!(parse_fetch_url("").unwrap_err(), "URL is empty");
    assert_eq!(parse_fetch_url("   ").unwrap_err(), "URL is empty");
    assert!(parse_fetch_url("not a url").unwrap_err().starts_with("invalid URL: "));
}

#[test]
fn parse_url_rejects_blocked_hosts() {
    assert!(parse_fetch_url("http://localhost/").is_err());
    assert!(parse_fetch_url("http://127.0.0.1:11434/").is_err());
    assert!(parse_fetch_url("http://192.168.1.1/").is_err());
    assert!(parse_fetch_url("http://[::1]/").is_err());
}

#[test]
fn parse_url_reports_the_host_refusal() {
    assert_eq!(
        parse_fetch_url("http://[::1]/").unwrap_err(),
        "host ::1 resolves to a private or loopback address"
    );
    assert_eq!(
        parse_fetch_url("http://LOCALHOST/").unwrap_err(),
        "host localhost is on the internal-name blocklist"
    );
    assert_eq!(parse_fetch_url("http://[2606:4700::1111]/").unwrap().host, "[2606:4700::1111]");
}

#[test]
fn article_format_defaults_to_markdown() {
    assert_eq!(article_format(None), Ok(ArticleFormat::Markdown));
    assert_eq!(article_format(Some("markdown")), Ok(ArticleFormat::Markdown));
    assert_eq!(article_format(Some("text")), Ok(ArticleFormat::Text));
    assert_eq!(
        article_format(Some("xml")),
        Err("unsupported format 'xml'; use 'markdown' or 'text'".to_string())
    );
}

#[test]
fn fetch_failures_have_their_exact_text() {
    assert_eq!(fetch_failure_message(true, true, "u", "d"), "fetch timed out");
    assert_eq!(fetch_failure_message(false, true, "http://x/", "d"), "could not connect to http://x/");
    assert_eq!(fetch_failure_message(false, false, "u", "boom"), "network error: boom");
}

// ─── fetch_url: response ───────────────────────────────────────────────────

#[test]
fn content_type_html_variants_are_accepted() {
    assert!(content_type_is_html("text/html"));
    assert!(content_type_is_html("text/html; charset=utf-8"));
    assert!(content_type_is_html("Text/HTML"));
    assert!(content_type_is_html("application/xhtml+xml"));
}

#[test]
fn content_type_non_html_is_rejected() {
    assert!(!content_type_is_html(""));
    assert!(!content_type_is_html("application/json"));
    assert!(!content_type_is_html("application/pdf"));
    assert!(!content_type_is_html("text/plain"));
    assert!(!content_type_is_html("image/png"));
}

#[test]
fn response_checks_status_then_content_type() {
    assert_eq!(
        check_fetch_response(false, "404 Not Found", "text/html"),
        Err("server returned HTTP 404 Not Found".to_string())
    );
    assert_eq!(
        check_fetch_response(true, "200 OK", "application/json"),
        Err("unsupported content-type 'application/json'; only text/html is supported".to_string())
    );
    assert!(check_fetch_response(true, "200 OK", "text/html; charset=utf-8").is_ok());
}

#[test]
fn body_is_capped_at_the_fetch_limit() {
    let mut body = vec![0u8; FETCH_MAX_BYTES - 3];
    assert!(!append_capped(&mut body, &[1, 2]));
    assert_eq!(body.len(), FETCH_MAX_BYTES - 1);
    assert!(append_capped(&mut body, &[3, 4, 5]));
    assert_eq!(body.len(), FETCH_MAX_BYTES);
    assert_eq!(body[FETCH_MAX_BYTES - 1], 3);
}

// ─── fetch_url: article ────────────────────────────────────────────────────

fn sample_article_html() -> String {
    let para = "This is a paragraph of substantive article text used to give Readability enough signal to score the candidate node above the heuristic threshold. ".repeat(8);
    format!(
        "<!doctype html><html><head><title>Test Article</title></head>\
         <body>\
           <header><nav>nav junk</nav></header>\
           <article>\
             <h1>Test Article</h1>\
             <p>{para}</p>\
             <p>{para}</p>\
             <p>{para}</p>\
           </article>\
           <footer>footer junk</footer>\
         </body></html>"
    )
}

#[test]
fn extract_article_returns_title_and_body() {
    let html = sample_article_html();
    let out = extract_article(&html, "https://example.com/article", ArticleFormat::Markdown, false)
        .expect("extract should succeed");
    assert!(out.contains("Test Article"));
    assert!(out.contains("Source: https://example.com/article"));
    assert!(out.contains("substantive article text"));
    assert!(!out.contains("nav junk"));
}

#[test]
fn extract_article_truncates_long_output() {
    let sentence = "alpha beta gamma delta epsilon zeta eta theta iota kappa lambda mu nu xi omicron pi rho sigma tau upsilon phi chi psi omega ".repeat(8);
    let mut paragraphs = String::new();
    for _ in 0..100 {
        paragraphs.push_str(&format!("<p>{sentence}</p>"));
    }
    let big_html = format!(
        "<!doctype html><html><head><title>Big</title></head>\
         <body><article><h1>Big</h1>{paragraphs}</article></body></html>"
    );
    let out = extract_article(&big_html, "https://example.com/big", ArticleFormat::Markdown, false)
        .expect("extract should succeed");
    assert!(
        out.contains("[truncated:"),
        "expected truncation marker, got body of {} bytes",
        out.len()
    );
    assert!(out.len() <= FETCH_RESULT_MAX_BYTES + 200);
}

#[test]
fn extract_article_appends_body_truncated_note() {
    let html = sample_article_html();
    let out = extract_article(&html, "https://example.com/", ArticleFormat::Markdown, true)
        .expect("extract should succeed");
    assert!(out.contains("response body exceeded"));
}

#[test]
fn extract_article_handles_garbage_html() {
    let out = extract_article("not html at all", "https://example.com/", ArticleFormat::Markdown, false);
    if let Ok(s) = out {
        assert!(s.contains("Source: https://example.com"));
    }
}

#[test]
fn extract_article_reports_a_relative_document_url() {
    assert_eq!(
        extract_article(&sample_article_html(), "relative/path", ArticleFormat::Text, false),
        Err("readability init failed: the document URL must be absolute".to_string())
    );
}

#[test]
fn format_article_lines_and_markers() {
    assert_eq!(
        format_article("T", "body", "https://x/", false),
        "# T\nSource: https://x/\n\nbody"
    );
    assert_eq!(format_article("  ", "body", "https://x/", false), "Source: https://x/\n\nbody");
    assert_eq!(
        format_article("", "b", "u", true),
        "Source: u\n\nb\n\n[truncated: response body exceeded 5242880 bytes; readability ran on the partial body]"
    );
    // A multi-byte character straddling the cap is cut before it.
    let body = format!("{}é", "a".repeat(FETCH_RESULT_MAX_BYTES - "Source: u\n\n".len() - 1));
    let out = format_article("", &body, "u", false);
    let total = "Source: u\n\n".len() + body.len();
    assert!(out.ends_with(&format!(
        "\n\n[truncated: showing first {} of {} bytes of extracted text]",
        FETCH_RESULT_MAX_BYTES - 1,
        total
    )));
    assert!(!out.contains('é'));
}

#[test]
fn tool_definitions_includes_fetch_url() {
    let names: Vec<&str> = BuiltinTool::all().iter().map(|t| t.name()).collect();
    assert!(names.contains(&"fetch_url"));
}

// ─── Host validation ───────────────────────────────────────────────────────

#[test]
fn host_validation_allows_public_names() {
    assert!(validate_fetch_host("example.com").is_ok());
    assert!(validate_fetch_host("docs.rs").is_ok());
    // Trailing dot is FQDN-style; should normalise.
    assert!(validate_fetch_host("example.com.").is_ok());
}

#[test]
fn host_validation_blocks_localhost_aliases() {
    assert!(validate_fetch_host("localhost").is_err());
    assert!(validate_fetch_host("LOCALHOST").is_err());
    assert!(validate_fetch_host("foo.localhost").is_err());
    assert!(validate_fetch_host("router.local").is_err());
    assert!(validate_fetch_host("svc.internal").is_err());
}

#[test]
fn host_validation_blocks_private_ips() {
    assert!(validate_fetch_host("127.0.0.1").is_err());
    assert!(validate_fetch_host("10.0.0.5").is_err());
    assert!(validate_fetch_host("192.168.1.1").is_err());
    assert!(validate_fetch_host("::1").is_err());
    assert!(validate_fetch_host("fc00::1").is_err());
}

#[test]
fn host_validation_rejects_empty() {
    assert!(validate_fetch_host("").is_err());
    assert!(validate_fetch_host(".").is_err());
}

#[test]
fn host_validation_reads_bracketed_and_mapped_addresses() {
    assert_eq!(
        validate_fetch_host("[::ffff:192.168.0.1]"),
        Err("host ::ffff:192.168.0.1 resolves to a private or loopback address".to_string())
    );
    assert!(validate_fetch_host("[2606:4700::1111]").is_ok());
    assert!(validate_fetch_host("8.8.8.8").is_ok());
    assert!(validate_fetch_host("127.0.0.1.").is_err());
}

// ─── IP address literals ───────────────────────────────────────────────────

#[test]
fn ip_literal_reads_dotted_quads() {
    assert_eq!(parse_ip_literal("1.2.3.4"), Some(IpAddress::V4([1, 2, 3, 4])));
    assert_eq!(parse_ip_literal("255.255.255.255"), Some(IpAddress::V4([255, 255, 255, 255])));
    assert_eq!(parse_ip_literal("0.0.0.0"), Some(IpAddress::V4([0, 0, 0, 0])));
    assert_eq!(parse_ip_literal("01.2.3.4"), None);
    assert_eq!(parse_ip_literal("256.1.1.1"), None);
    assert_eq!(parse_ip_literal("1.2.3"), None);
    assert_eq!(parse_ip_literal("1.2.3.4.5"), None);
    assert_eq!(parse_ip_literal("1.2.3.4 "), None);
    assert_eq!(parse_ip_literal("1234.1.1.1"), None);
    assert_eq!(parse_ip_literal(""), None);
    assert_eq!(parse_ip_literal("example.com"), None);
}

#[test]
fn ip_literal_reads_ipv6_forms() {
    assert_eq!(parse_ip_literal("::1"), Some(IpAddress::V6([0, 0, 0, 0, 0, 0, 0, 1])));
    assert_eq!(parse_ip_literal("::"), Some(IpAddress::V6([0; 8])));
    assert_eq!(parse_ip_literal("1:2:3:4:5:6:7:8"), Some(IpAddress::V6([1, 2, 3, 4, 5, 6, 7, 8])));
    assert_eq!(
        parse_ip_literal("FE80::abcd"),
        Some(IpAddress::V6([0xfe80, 0, 0, 0, 0, 0, 0, 0xabcd]))
    );
    assert_eq!(parse_ip_literal("1:2:3:4:5:6:7::"), Some(IpAddress::V6([1, 2, 3, 4, 5, 6, 7, 0])));
    assert_eq!(
        parse_ip_literal("::ffff:127.0.0.1"),
        Some(IpAddress::V6([0, 0, 0, 0, 0, 0xffff, 0x7f00, 1]))
    );
    assert_eq!(
        parse_ip_literal("1:2:3:4:5:6:1.2.3.4"),
        Some(IpAddress::V6([1, 2, 3, 4, 5, 6, 0x0102, 0x0304]))
    );
    assert_eq!(parse_ip_literal("0001:00:0::"), Some(IpAddress::V6([1, 0, 0, 0, 0, 0, 0, 0])));
    assert_eq!(parse_ip_literal("1:2:3:4:5:6:7:8::"), None);
    assert_eq!(parse_ip_literal("1:2:3:4:5:6:7:1.2.3.4"), None);
    assert_eq!(parse_ip_literal(":::"), None);
    assert_eq!(parse_ip_literal(":1"), None);
    assert_eq!(parse_ip_literal("1::2::3"), None);
    assert_eq!(parse_ip_literal("12345::"), None);
    assert_eq!(parse_ip_literal("1.2.3.4::"), None);
    assert_eq!(parse_ip_literal("1:2:3:4:5:6:7"), None);
    assert_eq!(parse_ip_literal("g::1"), None);
}

#[test]
fn dotted_quad_hosts_follow_the_address_policy() {
    assert_eq!(
        validate_fetch_host("10.1.2.3"),
        Err("host 10.1.2.3 resolves to a private or loopback address".to_string())
    );
    assert_eq!(
        validate_fetch_host("100.64.0.1"),
        Err("host 100.64.0.1 resolves to a private or loopback address".to_string())
    );
    assert!(validate_fetch_host("93.184.216.34").is_ok());
    assert_eq!(parse_ip_literal("172.16.0.1"), Some(IpAddress::V4([172, 16, 0, 1])));
}

#[test]
fn redirects_to_refused_hosts_are_blocked() {
    assert_eq!(
        check_redirect_host("169.254.169.254"),
        Err("redirect blocked: host 169.254.169.254 resolves to a private or loopback address".to_string())
    );
    assert_eq!(
        check_redirect_host("intranet.local"),
        Err("redirect blocked: host intranet.local is on the internal-name blocklist".to_string())
    );
    assert_eq!(check_redirect_host("example.org"), Ok(()));
}

#[test]
fn mapped_ipv4_hosts_follow_the_ipv4_policy() {
    assert_eq!(
        validate_fetch_host("::ffff:10.0.0.1"),
        Err("host ::ffff:10.0.0.1 resolves to a private or loopback address".to_string())
    );
    assert!(validate_fetch_host("::ffff:8.8.8.8").is_ok());
    assert_eq!(
        parse_ip_literal("::ffff:8.8.8.8"),
        Some(IpAddress::V6([0, 0, 0, 0, 0, 0xffff, 0x0808, 0x0808]))
    );
}

#[test]
fn descriptions_mention_approval_exactly_for_gated_tools() {
    for t in BuiltinTool::all() {
        assert_eq!(t.description().contains("Requires user approval"), t.needs_approval(), "{}", t.name());
        assert_eq!(is_destructive(t.name()), t.description().contains("Requires user approval"));
    }
}

#[test]
fn cuts_fall_on_character_boundaries() {
    assert_eq!(trim_to_limit("aé", 2), "a\n[truncated: showing first 1 of 3 bytes]");
    let line = format!("{}é", "y".repeat(299));
    assert_eq!(grep_entry("f", 1, &line), format!("f:1: {}…", "y".repeat(299)));
    let out = format_shell_output(Some(0), &format!("a{}", "é".repeat(6_000)), "");
    assert!(out.contains("[truncated: showing first 9999 of 12001 bytes]"));
}

#[test]
fn fetch_targets_from_parsed_urls() {
    let ok = fetch_target_from_parts(Ok(UrlParts {
        scheme: "https".to_string(),
        host: Some("example.com".to_string()),
        serialized: "https://example.com/".to_string(),
    }))
    .unwrap();
    assert_eq!((ok.url.as_str(), ok.host.as_str()), ("https://example.com/", "example.com"));
    assert_eq!(fetch_target_from_parts(Err("boom".to_string())).unwrap_err(), "invalid URL: boom");
    let refused = fetch_target_from_parts(Ok(UrlParts {
        scheme: "http".to_string(),
        host: Some("10.0.0.1".to_string()),
        serialized: "http://10.0.0.1/".to_string(),
    }));
    assert_eq!(refused.unwrap_err(), "host 10.0.0.1 resolves to a private or loopback address");
}

#[test]
fn lossy_decoding_replaces_bad_bytes() {
    assert_eq!(wren::tools::decode_lossy(b"ok"), "ok");
    assert_eq!(wren::tools::decode_lossy(&[0x61, 0xff, 0x62]), "a\u{fffd}b");
}
