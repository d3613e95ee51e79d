use codei::llm::{
    collect_response, tool_call_from_parts, Message, ResponseCollector, Role, StreamEvent, ToolCall,
    ToolFormat, Usage,
};
use codei::provider::{
    chunk_to_events, convert_messages_for_api, lookup_function_name, map_anthropic_event,
    parse_anthropic_sse, parse_sse_chunk, split_messages, AnthropicBlock, AnthropicContent,
    AnthropicDelta, AnthropicUsage, ApiMessage, ChatCompletionChunk, ContentBlock, OpenAiUsage,
    SseBuffer, SseData, StreamChoice, StreamDelta, StreamFunctionDelta, StreamToolCallDelta,
    StreamWrapper, tool_use_input, tool_use_input_from,
};

fn choice(delta: StreamDelta, finish: Option<&str>) -> StreamChoice {
    StreamChoice {
        delta,
        finish_reason: finish.map(|s| s.to_string()),
    }
}

#[test]
fn splits_system_from_messages() {
    let messages = vec![Message::system("sys"), Message::user("hello")];
    let (system, rest) = split_messages(messages);
    assert_eq!(system.as_deref(), Some("sys"));
    assert_eq!(rest.len(), 1);
}

#[test]
fn tool_use_input_is_json_or_empty_object() {
    assert_eq!(tool_use_input("{\"path\":\"a.rs\"}"), "{\"path\":\"a.rs\"}");
    assert_eq!(tool_use_input("not json"), "{}");
    assert_eq!(tool_use_input(""), "{}");
    assert_eq!(tool_use_input_from("[1, 2]", true), "[1, 2]");
    assert_eq!(tool_use_input_from("[1, 2", false), "{}");
    let messages = vec![Message::assistant(
        "x".to_string(),
        Some(vec![ToolCall {
            id: "t1".into(),
            name: "read".into(),
            arguments: "{\"path\":".into(),
        }]),
    )];
    let (_, rest) = split_messages(messages);
    match &rest[0].content {
        AnthropicContent::Blocks(blocks) => {
            assert_eq!(blocks.len(), 2);
            assert!(matches!(&blocks[1], AnthropicBlock::ToolUse { input, .. } if input == "{}"));
        }
        AnthropicContent::Text(_) => panic!("expected blocks"),
    }
}

#[test]
fn system_parts_are_joined_and_tool_results_become_user_blocks() {
    let messages = vec![
        Message::system("a"),
        Message::system("b"),
        Message::assistant(
            String::new(),
            Some(vec![ToolCall {
                id: "t1".into(),
                name: "read".into(),
                arguments: "{}".into(),
            }]),
        ),
        Message::tool("t1", "done"),
    ];
    let (system, rest) = split_messages(messages);
    assert_eq!(system.as_deref(), Some("a\n\nb"));
    assert_eq!(rest.len(), 2);
    assert_eq!(rest[0].role, Role::Assistant);
    match &rest[0].content {
        AnthropicContent::Blocks(blocks) => {
            assert_eq!(blocks.len(), 1);
            assert!(matches!(&blocks[0], AnthropicBlock::ToolUse { name, .. } if name == "read"));
        }
        AnthropicContent::Text(_) => panic!("expected blocks"),
    }
    assert_eq!(rest[1].role, Role::User);
    match &rest[1].content {
        AnthropicContent::Blocks(blocks) => assert!(matches!(
            &blocks[0],
            AnthropicBlock::ToolResult { tool_use_id: Some(id), content } if id == "t1" && content == "done"
        )),
        AnthropicContent::Text(_) => panic!("expected blocks"),
    }
}

#[test]
fn converts_tool_messages_to_function_role() {
    let messages = vec![
        Message::assistant(
            String::new(),
            Some(vec![ToolCall {
                id: "call_1".into(),
                name: "read".into(),
                arguments: r#"{"path":"README.md"}"#.into(),
            }]),
        ),
        Message::tool("call_1", "file contents"),
    ];
    let api = convert_messages_for_api(&messages, ToolFormat::Functions);
    assert!(matches!(
        &api[0],
        ApiMessage::Assistant { function_call: Some(call), .. } if call.name == "read"
    ));
    assert!(matches!(
        &api[1],
        ApiMessage::Function { name, content } if name == "read" && content == "file contents"
    ));
}

#[test]
fn tools_format_passes_messages_through() {
    let messages = vec![Message::user("hi")];
    let api = convert_messages_for_api(&messages, ToolFormat::Tools);
    assert!(matches!(&api[0], ApiMessage::Plain(m) if m.content.as_deref() == Some("hi")));
}

#[test]
fn function_name_falls_back_to_latest_call() {
    let messages = vec![
        Message::assistant_with_calls(vec![ToolCall {
            id: "c".into(),
            name: "old".into(),
            arguments: String::new(),
        }]),
        Message::assistant_with_calls(vec![ToolCall {
            id: "c".into(),
            name: "new".into(),
            arguments: String::new(),
        }]),
    ];
    assert_eq!(lookup_function_name(&messages, "c").as_deref(), Some("new"));
    assert_eq!(lookup_function_name(&messages, "x"), None);
}

#[test]
fn parses_nested_and_flat_tool_call_deltas() {
    let nested = StreamToolCallDelta {
        index: 0,
        id: Some("call_1".into()),
        function: Some(StreamFunctionDelta {
            name: Some("read".into()),
            arguments: Some(r#"{"path":"#.into()),
        }),
        name: None,
        arguments: None,
    };
    assert_eq!(nested.name(), Some("read".into()));
    assert_eq!(nested.arguments(), Some(r#"{"path":"#.into()));

    let flat = StreamToolCallDelta {
        index: 1,
        id: Some("call_2".into()),
        function: None,
        name: Some("grep".into()),
        arguments: Some(r#"{"pattern":"foo"}"#.into()),
    };
    assert_eq!(flat.name(), Some("grep".into()));
    assert_eq!(flat.arguments(), Some(r#"{"pattern":"foo"}"#.into()));
}

#[test]
fn collects_tool_arguments_after_finish_reason_chunk() {
    let name_chunk = ChatCompletionChunk {
        choices: vec![choice(
            StreamDelta {
                content: None,
                tool_calls: Some(vec![StreamToolCallDelta {
                    index: 0,
                    id: Some("call_1".into()),
                    function: Some(StreamFunctionDelta {
                        name: Some("read".into()),
                        arguments: Some(String::new()),
                    }),
                    name: None,
                    arguments: None,
                }]),
                function_call: None,
            },
            None,
        )],
        usage: None,
    };
    let finish_chunk = ChatCompletionChunk {
        choices: vec![choice(StreamDelta::default(), Some("tool_calls"))],
        usage: None,
    };
    let args_chunk = ChatCompletionChunk {
        choices: vec![choice(
            StreamDelta {
                content: None,
                tool_calls: Some(vec![StreamToolCallDelta {
                    index: 0,
                    id: None,
                    function: Some(StreamFunctionDelta {
                        name: None,
                        arguments: Some(r#"{"path":"README.md"}"#.into()),
                    }),
                    name: None,
                    arguments: None,
                }]),
                function_call: None,
            },
            None,
        )],
        usage: None,
    };

    let mut events = Vec::new();
    for chunk in [name_chunk, finish_chunk, args_chunk] {
        events.extend(chunk_to_events(chunk));
    }

    let mut args = String::new();
    for event in events {
        if let StreamEvent::ToolCallDelta {
            arguments: Some(part),
            ..
        } = event
        {
            args.push_str(&part);
        }
    }
    assert_eq!(args, r#"{"path":"README.md"}"#);
}

#[test]
fn parses_function_call_stream_delta() {
    let chunk = ChatCompletionChunk {
        choices: vec![choice(
            StreamDelta {
                content: None,
                tool_calls: None,
                function_call: Some(StreamFunctionDelta {
                    name: Some("read".into()),
                    arguments: Some(r#"{"path":"README.md"}"#.into()),
                }),
            },
            None,
        )],
        usage: None,
    };
    let events = chunk_to_events(chunk);
    assert!(matches!(
        events[0],
        StreamEvent::ToolCallDelta {
            name: Some(ref n),
            ..
        } if n == "read"
    ));
}

#[test]
fn usage_chunk_is_converted() {
    let chunk = ChatCompletionChunk {
        choices: vec![],
        usage: Some(OpenAiUsage {
            prompt_tokens: 7,
            completion_tokens: 3,
        }),
    };
    let events = chunk_to_events(chunk);
    assert!(matches!(
        events[0],
        StreamEvent::Usage(Usage {
            input_tokens: 7,
            output_tokens: 3
        })
    ));
}

#[test]
fn collects_text_and_tool_calls() {
    let events = vec![
        StreamEvent::TextDelta("hi".into()),
        StreamEvent::ToolCallDelta {
            index: 0,
            id: Some("call_1".into()),
            name: Some("read".into()),
            arguments: None,
        },
        StreamEvent::ToolCallDelta {
            index: 0,
            id: None,
            name: None,
            arguments: Some(r#"{"path":"a.rs"}"#.into()),
        },
        StreamEvent::Done,
    ];
    let response = collect_response(events);
    assert_eq!(response.content, "hi");
    assert_eq!(response.tool_calls.len(), 1);
    assert_eq!(response.tool_calls[0].name, "read");
    assert_eq!(response.tool_calls[0].arguments, r#"{"path":"a.rs"}"#);
}

#[test]
fn turn_collector_orders_by_index_and_invents_missing_ids() {
    let mut c = ResponseCollector::new();
    c.push(StreamEvent::ToolCallDelta {
        index: 2,
        id: None,
        name: Some("grep".into()),
        arguments: Some("{}".into()),
    });
    c.push(StreamEvent::ToolCallDelta {
        index: 0,
        id: Some("a".into()),
        name: Some("read".into()),
        arguments: None,
    });
    c.push(StreamEvent::ToolCallDelta {
        index: 1,
        id: Some("b".into()),
        name: None,
        arguments: Some("x".into()),
    });
    c.push(StreamEvent::Usage(Usage {
        input_tokens: 1,
        output_tokens: 2,
    }));
    let response = c.finish_turn();
    let names: Vec<&str> = response.tool_calls.iter().map(|t| t.name.as_str()).collect();
    assert_eq!(names, vec!["read", "grep"]);
    assert_eq!(response.tool_calls[1].id, "call_grep");
    assert_eq!(
        response.usage,
        Some(Usage {
            input_tokens: 1,
            output_tokens: 2
        })
    );
}

#[test]
fn deserializes_openai_and_flat_tool_call_shapes() {
    let from_openai = tool_call_from_parts(
        "call_1".into(),
        None,
        None,
        Some(("read".into(), r#"{"path":"a.rs"}"#.into())),
    )
    .unwrap();
    let from_flat = tool_call_from_parts(
        "call_2".into(),
        Some("grep".into()),
        Some(r#"{"pattern":"foo"}"#.into()),
        None,
    )
    .unwrap();
    assert_eq!(from_openai.name, "read");
    assert_eq!(from_flat.name, "grep");
    assert!(tool_call_from_parts("call_3".into(), None, None, None).is_err());
}

#[test]
fn sse_blocks_span_chunks() {
    let mut buf = SseBuffer::new();
    let first = parse_sse_chunk(&mut buf, b"data: {\"a\":1}\n\ndata: {\"b\"");
    assert_eq!(first, vec![SseData::Payload("{\"a\":1}".to_string())]);
    let second = parse_sse_chunk(&mut buf, b":2}\n\ndata: [DONE]\n\n");
    assert_eq!(
        second,
        vec![SseData::Payload("{\"b\":2}".to_string()), SseData::Done]
    );
}

#[test]
fn invalid_utf8_is_replaced() {
    let mut buf = SseBuffer::new();
    let out = parse_sse_chunk(&mut buf, b"data: a\xffb\n\n");
    assert_eq!(out, vec![SseData::Payload("a\u{fffd}b".to_string())]);
}

#[test]
fn anthropic_frames_carry_event_names() {
    let mut buf = SseBuffer::new();
    let frames = parse_anthropic_sse(
        &mut buf,
        b"event: message_stop\ndata: {\"type\":\"message_stop\"}\n\n",
    );
    assert_eq!(frames.len(), 1);
    assert_eq!(frames[0].event, "message_stop");
    assert_eq!(frames[0].data, "{\"type\":\"message_stop\"}");
}

#[test]
fn anthropic_events_map_to_stream_events() {
    let start = StreamWrapper {
        event_type: "content_block_start".into(),
        delta: None,
        content_block: Some(ContentBlock {
            block_type: Some("tool_use".into()),
            id: Some("tu_1".into()),
            name: Some("read".into()),
        }),
        index: Some(1),
        usage: None,
    };
    let events = map_anthropic_event("content_block_start", start);
    assert!(matches!(
        &events[0],
        StreamEvent::ToolCallDelta { index: 1, id: Some(id), name: Some(n), arguments: None }
            if id == "tu_1" && n == "read"
    ));
    let delta = StreamWrapper {
        event_type: "content_block_delta".into(),
        delta: Some(AnthropicDelta {
            delta_type: Some("text_delta".into()),
            text: Some("Hi".into()),
            partial_json: None,
        }),
        content_block: None,
        index: Some(0),
        usage: None,
    };
    let events = map_anthropic_event("content_block_delta", delta);
    assert!(matches!(&events[0], StreamEvent::TextDelta(t) if t == "Hi"));
    let end = StreamWrapper {
        event_type: "message_delta".into(),
        delta: None,
        content_block: None,
        index: None,
        usage: Some(AnthropicUsage {
            input_tokens: None,
            output_tokens: Some(9),
        }),
    };
    let events = map_anthropic_event("message_delta", end);
    assert_eq!(events.len(), 2);
    assert!(matches!(
        events[0],
        StreamEvent::Usage(Usage {
            input_tokens: 0,
            output_tokens: 9
        })
    ));
    assert!(matches!(events[1], StreamEvent::Done));
}

#[test]
fn usage_adds_with_saturation() {
    let mut u = Usage {
        input_tokens: u32::MAX - 1,
        output_tokens: 5,
    };
    u.add_assign(Usage {
        input_tokens: 10,
        output_tokens: 6,
    });
    assert_eq!(u.input_tokens, u32::MAX);
    assert_eq!(u.output_tokens, 11);
    assert_eq!(u.total(), u32::MAX);
}

#[test]
fn tool_format_names() {
    assert_eq!(ToolFormat::parse(Some(" Functions ")), ToolFormat::Functions);
    assert_eq!(ToolFormat::parse(Some("FUNCTION_CALLING")), ToolFormat::Functions);
    assert_eq!(ToolFormat::parse(Some(" Tools ")), ToolFormat::Tools);
    assert_eq!(ToolFormat::parse(None), ToolFormat::Functions);
    assert_eq!(ToolFormat::parse(Some("xyz")), ToolFormat::Functions);
    assert_eq!(ToolFormat::default(), ToolFormat::Functions);
}
