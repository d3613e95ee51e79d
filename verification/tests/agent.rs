use codei::agent::{
    build_system_prompt, compaction_after_summary, compaction_split, compaction_step,
    last_assistant_text, project_instructions, sub_agent_reply, sub_agent_rounds,
    summary_from_response, summary_max_tokens, summary_prompt, AgentError, Compaction,
    CompactionStep, SessionMessage, TurnOutcome, TurnState, TurnStep, SUMMARIZE_SYSTEM,
    response_record, tool_record, truncate, truncate_opt, user_record, TurnRecord,
};
use codei::factory::{
    anthropic_max_tokens, check_status, create_provider_by_name, find_provider,
    openai_tool_fields, ProviderPlan,
};
use codei::config::{default_providers, ProviderConfig};
use codei::i18n::{init, is_supported_locale, set_locale, t_fmt, I18nError};
use codei::llm::{AssistantResponse, LlmError, Message, Role, ToolCall, ToolFormat, Usage};
use codei::mcp::{
    registered_tool_name, resolve_tool, response_for_line, sanitize_name, McpContentBlock,
    McpToolCallResult, RpcStep,
};
use codei::server::{chat_message_text, chat_messages, role_name, server_log_filter, ApiError};
use codei::session_list::{merge_session_lists, Listed, LIST_LIMIT};
use codei::tool_args::{
    call_args_from, extract_file_path_from_text, repair_tool_args, tool_call_args, CallArgs,
};

fn response(tool_calls: usize, usage: Option<Usage>) -> AssistantResponse {
    AssistantResponse {
        content: "text".into(),
        tool_calls: (0..tool_calls)
            .map(|i| ToolCall {
                id: format!("c{i}"),
                name: "read".into(),
                arguments: "{}".into(),
            })
            .collect(),
        usage,
    }
}

fn message(role: Role, text: &str) -> SessionMessage {
    SessionMessage {
        role,
        text: text.into(),
    }
}

#[test]
fn extracts_readme_from_chinese_sentence() {
    let text = "让我查看 README.md 文件来了解项目的基本信息：";
    let path = repair_tool_args("read", text, false);
    assert_eq!(path.as_deref(), Some("README.md"));
}

#[test]
fn extracts_backtick_path() {
    let text = "Open `server/main.go` next";
    let path = repair_tool_args("read", text, false);
    assert_eq!(path.as_deref(), Some("server/main.go"));
}

#[test]
fn leaves_args_unchanged_when_no_hint() {
    let path = repair_tool_args("read", "no file here", false);
    assert!(path.is_none());
}

#[test]
fn repair_only_for_path_tools_without_path() {
    assert_eq!(repair_tool_args("grep", "see README.md", false), None);
    assert_eq!(repair_tool_args("read", "see README.md", true), None);
    assert_eq!(
        repair_tool_args("edit", "see src/lib.rs now", false).as_deref(),
        Some("src/lib.rs")
    );
}

#[test]
fn extracted_path_is_the_whole_token() {
    assert_eq!(
        extract_file_path_from_text("Open app.tsx").as_deref(),
        Some("app.tsx")
    );
    assert_eq!(
        extract_file_path_from_text("build main.cpp now").as_deref(),
        Some("main.cpp")
    );
    assert_eq!(
        extract_file_path_from_text("See main.rs.").as_deref(),
        Some("main.rs")
    );
}

#[test]
fn tool_call_arguments_are_kept_wrapped_or_replaced() {
    assert_eq!(
        tool_call_args("read", "{\"path\":\"a.rs\"}", "see README.md"),
        CallArgs::Json("{\"path\":\"a.rs\"}".to_string())
    );
    assert_eq!(
        tool_call_args("read", "{}", "see README.md"),
        CallArgs::Path("README.md".to_string())
    );
    assert_eq!(
        tool_call_args("read", "{\"path\": 3}", "see README.md"),
        CallArgs::Path("README.md".to_string())
    );
    assert_eq!(
        tool_call_args("shell", "not json", "see README.md"),
        CallArgs::Raw("not json".to_string())
    );
    assert_eq!(
        tool_call_args("write", "not json", "see src/lib.rs"),
        CallArgs::Path("src/lib.rs".to_string())
    );
    assert_eq!(
        tool_call_args("read", "{}", "nothing here"),
        CallArgs::Json("{}".to_string())
    );
    assert_eq!(
        call_args_from("grep", "x", "see README.md", false, false),
        CallArgs::Raw("x".to_string())
    );
    assert_eq!(
        call_args_from("edit", "{}", "see README.md", true, true),
        CallArgs::Json("{}".to_string())
    );
}

#[test]
fn turn_stops_after_max_rounds() {
    let mut turn = TurnState::new(2);
    assert_eq!(turn.start_round().unwrap(), 1);
    assert!(matches!(turn.on_response(&response(1, None)), TurnStep::RunTools));
    assert_eq!(turn.start_round().unwrap(), 2);
    assert!(matches!(turn.on_response(&response(2, None)), TurnStep::RunTools));
    assert!(matches!(turn.start_round(), Err(AgentError::MaxToolRounds)));
    assert_eq!(turn.rounds, 2);
}

#[test]
fn turn_finishes_with_last_reported_usage() {
    let mut turn = TurnState::new(5);
    turn.start_round().unwrap();
    let first = Usage {
        input_tokens: 4,
        output_tokens: 2,
    };
    assert!(matches!(turn.on_response(&response(1, Some(first))), TurnStep::RunTools));
    turn.start_round().unwrap();
    match turn.on_response(&response(0, None)) {
        TurnStep::Finish(outcome) => assert_eq!(outcome.usage, Some(first)),
        TurnStep::RunTools => panic!("expected the turn to finish"),
    }
    assert_eq!(TurnOutcome::default().usage, None);
}

#[test]
fn zero_rounds_fail_immediately() {
    let mut turn = TurnState::new(0);
    assert!(matches!(turn.start_round(), Err(AgentError::MaxToolRounds)));
}

#[test]
fn compaction_keeps_at_least_two_messages() {
    assert!(compaction_split(2, 0).is_none());
    let c = compaction_split(10, 1).unwrap();
    assert_eq!((c.keep, c.split), (2, 8));
    let c = compaction_split(20, 12).unwrap();
    assert_eq!((c.keep, c.split), (12, 8));
    assert!(compaction_split(12, 12).is_none());
}

#[test]
fn blank_transcript_is_truncated_and_others_summarized() {
    let split = compaction_split(5, 2).unwrap();
    assert!(matches!(compaction_step(&split, "  \n", "en-US"), CompactionStep::Truncate { keep: 2 }));
    match compaction_step(&split, "user: hi", "en-US") {
        CompactionStep::Summarize { prompt } => assert_eq!(
            prompt,
            "Summarize the conversation below. Write the summary in en-US.\n\nuser: hi"
        ),
        CompactionStep::Truncate { .. } => panic!("expected a summary request"),
    }
    assert_eq!(summary_prompt("zh-CN", "x"), "Summarize the conversation below. Write the summary in zh-CN.\n\nx");
    assert!(SUMMARIZE_SYSTEM.starts_with("You compress conversation history"));
}

#[test]
fn summaries_are_trimmed_and_must_not_be_empty() {
    assert_eq!(summary_from_response("  done \n").unwrap(), "done");
    assert!(matches!(
        summary_from_response("   "),
        Err(LlmError::Config(m)) if m == "compaction summary was empty"
    ));
    assert!(matches!(
        compaction_after_summary(4, Ok("s".into())),
        Compaction::WithSummary { keep: 4, summary } if summary == "s"
    ));
    assert!(matches!(
        compaction_after_summary(4, Err(LlmError::Http("down".into()))),
        Compaction::Truncate { keep: 4 }
    ));
    assert_eq!(summary_max_tokens(100), 256);
    assert_eq!(summary_max_tokens(4096), 4096);
}

#[test]
fn sub_agents_get_half_the_rounds_within_bounds() {
    assert_eq!(sub_agent_rounds(25), 12);
    assert_eq!(sub_agent_rounds(4), 3);
    assert_eq!(sub_agent_rounds(16), 8);
    assert_eq!(sub_agent_rounds(100), 12);
}

#[test]
fn sub_agent_reply_is_last_assistant_text() {
    let messages = vec![
        message(Role::User, "q"),
        message(Role::Assistant, "first"),
        message(Role::Tool, "out"),
        message(Role::Assistant, "second"),
        message(Role::User, "later"),
    ];
    assert_eq!(last_assistant_text(&messages).as_deref(), Some("second"));
    assert_eq!(sub_agent_reply(&messages), "second");
    assert_eq!(sub_agent_reply(&vec![message(Role::User, "q")]), "Sub-agent finished.");
}

#[test]
fn system_prompt_mentions_its_inputs() {
    let p = build_system_prompt("/work", "linux", "Be careful.", "en-US");
    assert!(p.starts_with("You are CodeI, an AI coding assistant"));
    assert!(p.contains("- Working directory: /work\n- Operating system: linux\n"));
    assert!(p.contains("## Project instructions\nBe careful.\n\n## Tool usage"));
    assert!(p.ends_with("- Communicate with the user in en-US\n- Be concise and actionable"));
}

#[test]
fn loads_rules_directory() {
    let rules = vec![("rust.md".to_string(), "Use idiomatic Rust.".to_string())];
    let text = project_instructions(None, None, &rules);
    assert!(text.contains("Use idiomatic Rust."));
    assert_eq!(text, "### Rule `rust.md`\nUse idiomatic Rust.");
}

#[test]
fn codei_agents_file_comes_first() {
    let rules = vec![
        ("a.md".to_string(), "A".to_string()),
        ("b.md".to_string(), "B".to_string()),
    ];
    let text = project_instructions(Some("inner"), Some("outer"), &rules);
    assert_eq!(
        text,
        "### From `.codei/AGENTS.md`\ninner\n\n### Rule `a.md`\nA\n\n### Rule `b.md`\nB"
    );
    assert_eq!(
        project_instructions(None, Some("outer"), &vec![]),
        "### From `AGENTS.md`\nouter"
    );
    assert_eq!(project_instructions(None, None, &vec![]), "");
}

#[test]
fn provider_plans_follow_the_configuration() {
    let providers = default_providers();
    assert_eq!(find_provider(&providers, "custom"), Some(2));
    match create_provider_by_name(&providers, "anthropic", Some("k".into())).unwrap() {
        ProviderPlan::Anthropic { id, api_key, base_url } => {
            assert_eq!(id, "anthropic");
            assert_eq!(api_key, "k");
            assert_eq!(base_url, "https://api.anthropic.com/v1");
        }
        ProviderPlan::OpenAi { .. } => panic!("expected anthropic"),
    }
    let plan = create_provider_by_name(&providers, "openai", Some("k".into())).unwrap();
    assert_eq!(plan.endpoint(), "https://api.openai.com/v1/chat/completions");
    assert!(matches!(
        create_provider_by_name(&providers, "openai", None),
        Err(LlmError::MissingApiKey { env }) if env == "OPENAI_API_KEY"
    ));
    assert!(matches!(
        create_provider_by_name(&providers, "nope", None),
        Err(LlmError::ProviderNotConfigured { provider }) if provider == "nope"
    ));
}

#[test]
fn provider_style_and_url_details() {
    let providers = vec![
        (
            "local".to_string(),
            ProviderConfig {
                api_key: Some("sk".into()),
                api_key_env: None,
                base_url: Some("http://h:1/v1//".into()),
                api_style: None,
                tool_format: Some("functions".into()),
            },
        ),
        (
            "odd".to_string(),
            ProviderConfig {
                api_key: Some("sk".into()),
                api_key_env: None,
                base_url: None,
                api_style: Some("gemini".into()),
                tool_format: None,
            },
        ),
    ];
    match create_provider_by_name(&providers, "local", None).unwrap() {
        ProviderPlan::OpenAi { base_url, tool_format, .. } => {
            assert_eq!(base_url, "http://h:1/v1");
            assert_eq!(tool_format, ToolFormat::Functions);
        }
        ProviderPlan::Anthropic { .. } => panic!("expected openai"),
    }
    assert!(matches!(
        create_provider_by_name(&providers, "odd", None),
        Err(LlmError::UnsupportedProvider(s)) if s == "gemini"
    ));
    let bare = vec![(
        "bare".to_string(),
        ProviderConfig {
            api_key: Some("sk".into()),
            api_key_env: None,
            base_url: None,
            api_style: Some("openai".into()),
            tool_format: None,
        },
    )];
    match create_provider_by_name(&bare, "bare", None).unwrap() {
        ProviderPlan::OpenAi { tool_format, base_url, .. } => {
            assert_eq!(tool_format, ToolFormat::Functions);
            assert_eq!(base_url, "https://api.openai.com/v1");
        }
        ProviderPlan::Anthropic { .. } => panic!("expected openai"),
    }
    let fields = openai_tool_fields(ToolFormat::Functions);
    assert!(fields.functions && fields.function_call_auto && !fields.tools && !fields.tool_choice_auto);
    assert_eq!(anthropic_max_tokens(None), 8192);
    assert_eq!(anthropic_max_tokens(Some(5)), 5);
    assert!(check_status(204, String::new()).is_ok());
    assert!(matches!(
        check_status(429, "slow down".into()),
        Err(LlmError::Api { status: 429, message }) if message == "slow down"
    ));
}

#[test]
fn session_view_names_tool_results_and_hides_blank_answers() {
    let messages = vec![
        Message::user("read it"),
        Message::assistant(
            "  ".into(),
            Some(vec![ToolCall {
                id: "c1".into(),
                name: "read".into(),
                arguments: "{}".into(),
            }]),
        ),
        Message::tool("c1", "contents"),
        Message::assistant("done".into(), None),
    ];
    let shown = chat_messages(&messages);
    let roles: Vec<&str> = shown.iter().map(|m| m.role.as_str()).collect();
    assert_eq!(roles, vec!["user", "tool", "assistant"]);
    assert_eq!(shown[1].tool_name.as_deref(), Some("read"));
    assert_eq!(shown[1].content, "contents");
    assert_eq!(shown[2].tool_name, None);
    assert_eq!(role_name(Role::System), "system");
    assert_eq!(server_log_filter(false), "codei_server=info");
}

#[test]
fn api_errors_and_chat_text() {
    let e = ApiError::not_found("session");
    assert_eq!((e.status, e.message.as_str()), (404, "session not found"));
    assert_eq!(ApiError::storage("disk").status, 500);
    assert_eq!(chat_message_text("  hi  ").unwrap(), "hi");
    let err = chat_message_text(" \n").unwrap_err();
    assert_eq!((err.status, err.message.as_str()), (400, "message cannot be empty"));
}

#[test]
fn mcp_tool_names_round_trip() {
    assert_eq!(sanitize_name("my-server.v2"), "my_server_v2");
    let name = registered_tool_name("my-server", "read_file");
    assert_eq!(name, "mcp_my_server_read_file");
    let servers = vec!["other".to_string(), "my-server".to_string()];
    assert_eq!(resolve_tool(&servers, &name), Some((1, "read_file".to_string())));
    assert_eq!(resolve_tool(&servers, "read_file"), None);
}

#[test]
fn mcp_result_text_joins_text_blocks() {
    let result = McpToolCallResult {
        content: vec![
            McpContentBlock {
                kind: "text".into(),
                text: "a".into(),
            },
            McpContentBlock {
                kind: "image".into(),
                text: "x".into(),
            },
            McpContentBlock {
                kind: String::new(),
                text: "b".into(),
            },
        ],
        is_error: false,
    };
    assert_eq!(result.text(), "a\nb");
}

#[test]
fn rpc_lines_are_judged_against_the_awaited_id() {
    assert!(matches!(response_for_line(1, "  \n"), RpcStep::Skip));
    assert!(matches!(response_for_line(1, "not json"), RpcStep::Invalid));
    assert!(matches!(
        response_for_line(1, r#"{"jsonrpc":"2.0","method":"notifications/progress"}"#),
        RpcStep::Skip
    ));
    assert!(matches!(
        response_for_line(1, r#"{"jsonrpc":"2.0","id":2,"result":{}}"#),
        RpcStep::Skip
    ));
    assert!(matches!(
        response_for_line(1, r#"{"jsonrpc":"2.0","id":1,"result":{"ok":true}}"#),
        RpcStep::Result { json } if json == r#"{"ok":true}"#
    ));
    assert!(matches!(
        response_for_line(3, r#"{"jsonrpc":"2.0","id":3,"error":{"code":-1,"message":"boom"}}"#),
        RpcStep::Failed { message } if message == "boom"
    ));
    assert!(matches!(
        response_for_line(3, r#"{"jsonrpc":"2.0","id":3,"error":{"code":-1}}"#),
        RpcStep::Failed { message } if message == "unknown error"
    ));
    assert!(matches!(
        response_for_line(4, r#"{"jsonrpc":"2.0","id":4}"#),
        RpcStep::Result { json } if json == "null"
    ));
}

#[test]
fn messages_are_interpolated() {
    assert_eq!(
        t_fmt("Hello {name}, {name}!", &[("name", "CodeI")]),
        "Hello CodeI, CodeI!"
    );
    assert_eq!(t_fmt("{a}{b}", &[("a", "{b}"), ("b", "x")]), "xx");
    assert_eq!(t_fmt("no placeholders", &[("x", "y")]), "no placeholders");
}

#[test]
fn only_known_locales_are_set() {
    assert!(is_supported_locale("zh-CN"));
    assert!(!is_supported_locale("fr"));
    assert!(matches!(
        set_locale("fr"),
        Err(I18nError::UnsupportedLocale { locale }) if locale == "fr"
    ));
    assert_eq!(I18nError::UnsupportedLocale { locale: "fr".into() }.message(), "unsupported locale: fr");
    assert_eq!(init("xx-YY"), "en-US");
    assert_eq!(init("zh-CN"), "zh-CN");
}

#[test]
fn session_list_joins_open_sessions_newest_first() {
    let row = |id: &str, at: i64, item: u32| Listed {
        id: id.to_string(),
        updated_at: at,
        item,
    };
    let stored = vec![row("a", 10, 1), row("b", 30, 2), row("c", 10, 3)];
    let live = vec![row("b", 99, 4), row("d", 20, 5), row("e", 10, 6)];
    let listed = merge_session_lists(stored, live, LIST_LIMIT);
    let items: Vec<u32> = listed.iter().map(|l| l.item).collect();
    assert_eq!(items, vec![2, 5, 1, 3, 6]);
    let cut = merge_session_lists(vec![row("x", 1, 7), row("y", 2, 8)], vec![], 1);
    assert_eq!(cut.len(), 1);
    assert_eq!(cut[0].id, "y");
    assert_eq!(LIST_LIMIT, 200);
}

#[test]
fn truncate_cuts_at_a_byte_count_and_notes_the_length() {
    assert_eq!(truncate("hello", 10), "hello");
    assert_eq!(truncate("hello", 5), "hello");
    assert_eq!(truncate("hello world", 5), "hello… [truncated, total 11 bytes]");
    assert_eq!(truncate("héllo", 3), "hé… [truncated, total 6 bytes]");
    assert_eq!(truncate("abc", 0), "… [truncated, total 3 bytes]");
    assert_eq!(truncate_opt(None, 3), "<none>");
    assert_eq!(truncate_opt(Some("abcdef"), 2), "ab… [truncated, total 6 bytes]");
}

#[test]
fn a_round_records_the_response_then_one_result_per_call() {
    let calls = vec![
        ToolCall {
            id: "c1".into(),
            name: "read".into(),
            arguments: "{}".into(),
        },
        ToolCall {
            id: "c2".into(),
            name: "shell".into(),
            arguments: "{}".into(),
        },
    ];
    let response = AssistantResponse {
        content: "working".into(),
        tool_calls: calls.clone(),
        usage: None,
    };
    match response_record(&response) {
        TurnRecord::Assistant { content, tool_calls } => {
            assert_eq!(content, "working");
            assert_eq!(tool_calls.map(|c| c.len()), Some(2));
        }
        _ => panic!("expected an assistant record"),
    }
    match tool_record(&calls[0], Ok("file text".into())) {
        TurnRecord::Tool { call_id, content } => {
            assert_eq!(call_id, "c1");
            assert_eq!(content, "file text");
        }
        _ => panic!("expected a tool record"),
    }
    match tool_record(&calls[1], Err("tool not found: shell".into())) {
        TurnRecord::Tool { call_id, content } => {
            assert_eq!(call_id, "c2");
            assert_eq!(content, "tool not found: shell");
        }
        _ => panic!("expected a tool record"),
    }
    let last = AssistantResponse {
        content: "done".into(),
        tool_calls: vec![],
        usage: None,
    };
    match response_record(&last) {
        TurnRecord::Assistant { content, tool_calls } => {
            assert_eq!(content, "done");
            assert!(tool_calls.is_none());
        }
        _ => panic!("expected an assistant record"),
    }
    assert!(matches!(user_record("hi"), TurnRecord::User(t) if t == "hi"));
}

#[test]
fn compaction_falls_back_to_truncation() {
    let split = compaction_split(6, 2).unwrap();
    assert_eq!((split.keep, split.split), (2, 4));
    assert!(summary_from_response("   ").is_err());
    assert!(matches!(
        compaction_after_summary(split.keep, summary_from_response("  ")),
        Compaction::Truncate { keep: 2 }
    ));
    match compaction_after_summary(split.keep, summary_from_response("  short  ")) {
        Compaction::WithSummary { keep, summary } => {
            assert_eq!(keep, 2);
            assert_eq!(summary, "short");
        }
        Compaction::Truncate { .. } => panic!("expected a summary"),
    }
}
