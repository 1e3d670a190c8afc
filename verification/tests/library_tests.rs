use crosschat::agent::decomposed::extract_json_array;
use crosschat::agent::tool_registry::ToolRegistry;
use crosschat::commands::chat::{derive_title, is_untitled, validate_api_base, AppError};
use crosschat::commands::session::{checked_title, parse_session_status};
use crosschat::domain::{ThreadMode, ThreadStatus, TokenUsage};
use crosschat::local_tool_host::{truncate_output, LocalToolHost};
use crosschat::mcp::{format_command_not_found_error, rpc_reply, version_from_output, HealthStatus};
use crosschat::memory::word_buckets;
use crosschat::paths::{blacklist_candidates, ensure_path_allowed, is_path_allowed, is_path_forbidden, normalize_components};
use crosschat::providers::anthropic::parse_data_url;
use crosschat::providers::openai_compat::{classify_line, image_data_url, SseLine};
use crosschat::providers::types::ToolDefinition;
use crosschat::services::{http_status_error, metrics_cutoff, normalize_api_base, AgentConfig, ProviderError};

#[test]
fn status_and_mode_names_round_trip() {
    for s in [ThreadStatus::Active, ThreadStatus::Archived, ThreadStatus::Deleted] {
        assert_eq!(ThreadStatus::from_name(&s.as_name()), s);
    }
    for m in [ThreadMode::Chat, ThreadMode::Write, ThreadMode::Review] {
        assert_eq!(ThreadMode::from_name(&m.as_name()), m);
    }
    for h in [HealthStatus::Healthy, HealthStatus::Degraded, HealthStatus::Down] {
        assert_eq!(HealthStatus::from_name(&h.as_name()), h);
    }
}

#[test]
fn token_usage_adds_field_by_field() {
    let mut a = TokenUsage { prompt_tokens: 1, completion_tokens: 2, cache_read_tokens: 3, cache_creation_tokens: 4, total_tokens: 10 };
    let b = TokenUsage { prompt_tokens: 10, completion_tokens: 20, cache_read_tokens: 30, cache_creation_tokens: 40, total_tokens: 100 };
    assert!(a.can_add(&b));
    a.add(&b);
    assert_eq!(a, TokenUsage { prompt_tokens: 11, completion_tokens: 22, cache_read_tokens: 33, cache_creation_tokens: 44, total_tokens: 110 });
    let huge = TokenUsage { prompt_tokens: u64::MAX, completion_tokens: 0, cache_read_tokens: 0, cache_creation_tokens: 0, total_tokens: 0 };
    assert!(!a.can_add(&huge));
}

#[test]
fn api_base_checks() {
    assert!(validate_api_base("https://api.openai.com/v1").is_ok());
    match validate_api_base("   ") {
        Err(AppError::InvalidInput(m)) => assert_eq!(m, "API 地址不能为空"),
        _ => panic!("expected an input error"),
    }
    match validate_api_base("ftp://x") {
        Err(AppError::InvalidInput(m)) => assert_eq!(m, "API 地址必须以 http:// 或 https:// 开头"),
        _ => panic!("expected an input error"),
    }
    assert_eq!(normalize_api_base("https://x/v1///"), "https://x/v1");
}

#[test]
fn titles() {
    assert_eq!(derive_title("short question"), "short question");
    let long = "a".repeat(40);
    assert_eq!(derive_title(&long), format!("{}...", "a".repeat(30)));
    assert!(is_untitled(""));
    assert!(is_untitled("新对话"));
    assert!(!is_untitled("Plan"));
    assert_eq!(checked_title("  Trip  "), Ok("Trip".to_string()));
    assert_eq!(checked_title("  "), Err("标题不能为空".to_string()));
}

#[test]
fn session_status_parse() {
    assert_eq!(parse_session_status("active"), Ok(ThreadStatus::Active));
    assert_eq!(parse_session_status("archived"), Ok(ThreadStatus::Archived));
    assert_eq!(parse_session_status("deleted"), Err("非法的会话状态: deleted".to_string()));
}

#[test]
fn sandbox_paths() {
    assert!(!is_path_allowed("/etc/passwd", &Some("/etc/passwd".to_string())));
    assert!(!is_path_allowed("/home/u/.ssh/id_rsa", &Some("/home/u/.ssh/id_rsa".to_string())));
    assert!(is_path_allowed("/home/u/project/a.rs", &Some("/home/u/project/a.rs".to_string())));
    assert_eq!(normalize_components("/a/b/../c/./d"), "/a/c/d");
}

#[test]
fn blacklist_covers_subtrees() {
    let banned = blacklist_candidates(&Some("/home/u".to_string()));
    assert!(banned.contains(&"/home/u/.ssh".to_string()));
    assert!(banned.contains(&"/etc".to_string()));
    assert!(is_path_forbidden("/home/u/.ssh/id_rsa", &banned));
    assert!(is_path_forbidden("/etc", &banned));
    assert!(!is_path_forbidden("/home/u/.sshx", &banned));
    assert_eq!(ensure_path_allowed("/root/x", &banned), Err("拒绝访问受保护路径".to_string()));
    assert_eq!(ensure_path_allowed("/home/u/work", &banned), Ok(()));
}

#[test]
fn local_tool_host_checks() {
    let host = LocalToolHost::new("/work".to_string());
    assert_eq!(host.resolve_path("a.txt"), "/work/a.txt");
    assert_eq!(host.resolve_path("/abs"), "/abs");
    assert_eq!(LocalToolHost::detect_dangerous("SUDO apt install"), Some("提权操作".to_string()));
    assert_eq!(LocalToolHost::detect_dangerous("rm -rf /"), Some("递归删除根目录".to_string()));
    assert_eq!(LocalToolHost::detect_dangerous("ls -la"), None);
    let long = "y".repeat(10_005);
    let cut = truncate_output(&long);
    assert_eq!(cut, format!("{}\n...（输出已截断）", "y".repeat(10_000)));
    assert_eq!(truncate_output("short"), "short");
}

#[test]
fn mcp_command_help_and_versions() {
    assert!(format_command_not_found_error("npx").contains("npx 是 Node.js 包运行工具"));
    assert_eq!(version_from_output(true, " v1.2.3\n", ""), Ok("v1.2.3".to_string()));
    assert_eq!(version_from_output(true, "", "py 3.11 "), Ok("py 3.11".to_string()));
    assert_eq!(version_from_output(false, "v1", ""), Err("无法获取版本信息".to_string()));
}

#[test]
fn service_helpers() {
    assert_eq!(metrics_cutoff(1_000_000, 1), 1_000_000 - 86_400);
    match http_status_error("404 Not Found", "nope") {
        ProviderError::ApiError(m) => assert_eq!(m, "HTTP 404 Not Found: nope"),
        _ => panic!("expected an API error"),
    }
    let cfg = AgentConfig::from_files("/g".into(), "global rule".into(), "/w".into(), "local rule".into());
    assert!(cfg.found);
    assert_eq!(cfg.merged, "global rule\n\n---\n\nlocal rule");
    let none = AgentConfig::from_files(String::new(), String::new(), String::new(), String::new());
    assert!(!none.found);
}

#[test]
fn stream_lines_and_data_urls() {
    assert!(matches!(classify_line("event: ping"), SseLine::Other));
    assert!(matches!(classify_line("data: [DONE]"), SseLine::Done));
    match classify_line("data: {\"a\":1}") {
        SseLine::Data(d) => assert_eq!(d, "{\"a\":1}"),
        _ => panic!("expected data"),
    }
    assert_eq!(parse_data_url("data:image/jpeg;base64,AAAA"), ("image/jpeg".to_string(), "AAAA".to_string()));
    assert_eq!(image_data_url("x.png", &vec![1u8, 2, 3]), Ok("data:image/png;base64,AQID".to_string()));
    assert_eq!(image_data_url("x.png", &vec![0xffu8]), Ok("data:image/png;base64,/w==".to_string()));
    assert_eq!(image_data_url("x.png", &vec![0xfbu8, 0xff]), Ok("data:image/png;base64,+/8=".to_string()));
    assert_eq!(image_data_url("x.png", &vec![]), Ok("data:image/png;base64,".to_string()));
    assert_eq!(image_data_url("x.jpg", &vec![0u8; 21 * 1024 * 1024]), Err("图片文件过大（超过20MB）".to_string()));
}

#[test]
fn json_array_extraction() {
    assert_eq!(extract_json_array("Here: [{\"id\":\"1\"}] done"), "[{\"id\":\"1\"}]");
    assert_eq!(extract_json_array("no array"), "no array");
}

#[test]
fn registry_replaces_same_name() {
    let mut reg = ToolRegistry::new();
    reg.register(ToolDefinition { name: "t".into(), description: "one".into(), parameters: "{}".into() });
    reg.register(ToolDefinition { name: "t".into(), description: "two".into(), parameters: "{}".into() });
    assert_eq!(reg.get_tools().len(), 1);
    assert_eq!(reg.get(&"t".to_string()).map(|d| d.description.clone()), Some("two".to_string()));
    assert!(reg.get(&"u".to_string()).is_none());
}

#[test]
fn word_buckets_hash_each_word() {
    assert_eq!(word_buckets("hello world"), vec![82, 18]);
    assert_eq!(word_buckets("  hello\t\n world  "), vec![82, 18]);
    assert_eq!(word_buckets("读取文件 a"), vec![0, 97]);
    assert!(word_buckets("   ").is_empty());
    assert!(word_buckets("").is_empty());
}

#[test]
fn rpc_replies() {
    assert_eq!(rpc_reply(Some("{\"code\":1}".to_string()), Some("1".to_string())), Err("MCP error: {\"code\":1}".to_string()));
    assert_eq!(rpc_reply(None, Some("{\"ok\":true}".to_string())), Ok("{\"ok\":true}".to_string()));
    assert_eq!(rpc_reply(None, None), Err("No result in response".to_string()));
}

#[test]
fn normalizing_twice_changes_nothing() {
    for p in ["/a/./b/../c", "../../x/..", "../a/b", "a//b/./..", "/..", "/", "", "./.", "../..", "/etc/../root/.ssh/"] {
        let once = normalize_components(p);
        assert_eq!(normalize_components(&once), once, "{}", p);
    }
    assert_eq!(normalize_components("../../x/.."), "../..");
    assert_eq!(normalize_components("../../a"), "../../a");
    assert_eq!(normalize_components("a/../../b"), "../b");
    assert_eq!(normalize_components("a/b/../../.."), "..");
    assert_eq!(normalize_components("/.."), "/");
    assert_eq!(normalize_components("../a/b"), "../a/b");
}

#[test]
fn usage_sums_do_not_depend_on_grouping() {
    let u = |p: u64, c: u64, t: u64| TokenUsage { prompt_tokens: p, completion_tokens: c, cache_read_tokens: 1, cache_creation_tokens: 2, total_tokens: t };
    let (a, b, c) = (u(5, 7, 12), u(100, 1, 101), u(3, 30, 33));
    let mut left = a.clone();
    left.add(&b);
    left.add(&c);
    let mut bc = b.clone();
    bc.add(&c);
    let mut right = a.clone();
    right.add(&bc);
    assert_eq!(left, right);
    assert_eq!(left, TokenUsage { prompt_tokens: 108, completion_tokens: 38, cache_read_tokens: 3, cache_creation_tokens: 6, total_tokens: 146 });
    let mut z = a.clone();
    z.add(&TokenUsage::default());
    assert_eq!(z, a);
}

#[test]
fn fresh_ids_are_version_4_uuids() {
    use_ids(&crosschat::domain::Turn::new("t".to_string(), "m".to_string()).id);
    use_ids(&crosschat::domain::Thread::new("x".to_string(), None, ThreadMode::Chat).id);
}

fn use_ids(id: &str) {
    let cs: Vec<char> = id.chars().collect();
    assert_eq!(cs.len(), 36);
    for (i, c) in cs.iter().enumerate() {
        if [8, 13, 18, 23].contains(&i) {
            assert_eq!(*c, '-');
        } else {
            assert!(c.is_ascii_digit() || ('a'..='f').contains(c), "{}", id);
        }
    }
    assert_eq!(cs[14], '4');
    assert!(['8', '9', 'a', 'b'].contains(&cs[19]));
}
