use loupe::json::parse_json;
use loupe::parser::{extract_tool_summary, parse_line, ClaudeCodeParser, ParseResult, TranscriptParser};
use loupe::run::TranscriptItem;

#[test]
fn parse_system_init() {
    let line = r#"{"type":"system","subtype":"init","model":"opus-4-6","tools":["Read","Edit","Bash"],"session_id":"abc-123","uuid":"u1"}"#;
    let ParseResult::Parsed(items, meta) = parse_line(line) else {
        panic!("expected Parsed")
    };
    assert_eq!(items.len(), 1);
    assert!(
        matches!(&items[0], TranscriptItem::SessionStart { model, .. } if model == "opus-4-6")
    );
    assert_eq!(meta.session_id, Some("abc-123".to_string()));
}

#[test]
fn parse_assistant_text() {
    let line = r#"{"type":"assistant","message":{"content":[{"type":"text","text":"Hello world"}],"role":"assistant"},"session_id":"abc"}"#;
    let ParseResult::Parsed(items, _) = parse_line(line) else {
        panic!("expected Parsed")
    };
    assert_eq!(items.len(), 1);
    assert!(
        matches!(&items[0], TranscriptItem::AssistantText { text, is_partial } if text == "Hello world" && !is_partial)
    );
}

#[test]
fn parse_assistant_tool_use() {
    let line = r#"{"type":"assistant","message":{"content":[{"type":"tool_use","name":"Read","id":"t1","input":{"file_path":"/foo/bar.rs"}}],"role":"assistant"},"session_id":"abc"}"#;
    let ParseResult::Parsed(items, _) = parse_line(line) else {
        panic!("expected Parsed")
    };
    assert_eq!(items.len(), 1);
    assert!(matches!(&items[0], TranscriptItem::ToolUse { name, .. } if name == "Read"));
}

#[test]
fn parse_user_tool_result() {
    let line = r#"{"type":"user","message":{"content":[{"type":"tool_result","tool_use_id":"t1","content":"file contents"}]},"tool_use_result":{"type":"text","file":{"filePath":"/foo/bar.rs"}},"session_id":"abc"}"#;
    let ParseResult::Parsed(items, _) = parse_line(line) else {
        panic!("expected Parsed")
    };
    assert_eq!(items.len(), 1);
    assert!(matches!(&items[0], TranscriptItem::ToolResult { .. }));
}

#[test]
fn parse_result_success() {
    let line = r#"{"type":"result","subtype":"success","is_error":false,"duration_ms":60000,"num_turns":10,"total_cost_usd":2.5,"stop_reason":"end_turn","result":"Done","session_id":"abc"}"#;
    let ParseResult::Parsed(items, meta) = parse_line(line) else {
        panic!("expected Parsed")
    };
    assert!(items.is_empty());
    assert!(meta.session_result.is_some());
    assert_eq!(meta.session_result.unwrap().total_cost_usd.text.parse::<f64>().unwrap(), 2.5);
}

#[test]
fn parse_stream_event_skipped() {
    let line =
        r#"{"type":"stream_event","event":{"type":"content_block_delta"},"session_id":"abc"}"#;
    assert!(matches!(parse_line(line), ParseResult::Skipped));
}

#[test]
fn parse_malformed_json() {
    assert!(matches!(parse_line("not json {{{"), ParseResult::Error(_)));
}

#[test]
fn parse_unknown_type() {
    let line = r#"{"type":"something_new","data":"hello","session_id":"abc"}"#;
    let ParseResult::Parsed(items, _) = parse_line(line) else {
        panic!("expected Parsed")
    };
    assert!(
        matches!(&items[0], TranscriptItem::SystemEvent { label, .. } if label == "something_new")
    );
}

#[test]
fn parse_subagent_started() {
    let line = r#"{"type":"system","subtype":"task_started","task_id":"t1","description":"Do the thing","session_id":"abc"}"#;
    let ParseResult::Parsed(items, _) = parse_line(line) else {
        panic!("expected Parsed")
    };
    assert!(
        matches!(&items[0], TranscriptItem::SubagentStart { description, .. } if description == "Do the thing")
    );
}

#[test]
fn parse_subagent_notification() {
    let line = r#"{"type":"system","subtype":"task_notification","task_id":"t1","status":"completed","summary":"Did the thing","usage":{"total_tokens":1000,"tool_uses":5,"duration_ms":30000},"session_id":"abc"}"#;
    let ParseResult::Parsed(items, _) = parse_line(line) else {
        panic!("expected Parsed")
    };
    assert!(
        matches!(&items[0], TranscriptItem::SubagentEnd { status, .. } if status == "completed")
    );
}

#[test]
fn parse_malformed_lines_dont_panic() {
    let lines = vec![
        "",
        "not json",
        "{}",
        r#"{"type":"unknown_future_type"}"#,
        r#"{"type":"system","subtype":"unknown_subtype"}"#,
        r#"{"type":"assistant","message":{}}"#,
        r#"{"type":"result"}"#,
    ];

    for line in lines {
        let _ = parse_line(line);
    }
}

#[test]
fn malformed_json_error_names_serde_message() {
    let ParseResult::Error(m) = parse_line("not json") else {
        panic!("expected Error")
    };
    let serde_msg = serde_json::from_str::<serde_json::Value>("not json").unwrap_err().to_string();
    assert_eq!(m, format!("JSON parse error: {serde_msg}"));
}

#[test]
fn missing_type_is_an_error() {
    let ParseResult::Error(m) = parse_line(r#"{"session_id":"abc"}"#) else {
        panic!("expected Error")
    };
    assert_eq!(m, "Missing 'type' field");
}

#[test]
fn unknown_type_detail_is_the_compact_json() {
    let line = r#"{ "type" : "something_new", "b": [1, 2.5, null, true], "a": "x\ny\u0001" }"#;
    let ParseResult::Parsed(items, _) = parse_line(line) else {
        panic!("expected Parsed")
    };
    let expected = serde_json::to_string(&serde_json::from_str::<serde_json::Value>(line).unwrap()).unwrap();
    assert!(matches!(&items[0], TranscriptItem::SystemEvent { detail, .. } if *detail == expected));
}

#[test]
fn rate_limit_event_reports_status() {
    let line = r#"{"type":"rate_limit_event","rate_limit_info":{"status":"allowed"}}"#;
    let ParseResult::Parsed(items, _) = parse_line(line) else {
        panic!("expected Parsed")
    };
    assert!(matches!(&items[0], TranscriptItem::SystemEvent { label, detail } if label == "rate_limit" && detail == "allowed"));
    let ParseResult::Parsed(items, _) = parse_line(r#"{"type":"rate_limit_event"}"#) else {
        panic!("expected Parsed")
    };
    assert!(matches!(&items[0], TranscriptItem::SystemEvent { detail, .. } if detail == "unknown"));
}

#[test]
fn user_line_without_tool_result_is_skipped() {
    let line = r#"{"type":"user","message":{"content":[{"type":"text","text":"hi"}]}}"#;
    assert!(matches!(parse_line(line), ParseResult::Skipped));
}

#[test]
fn user_tool_result_without_file_uses_truncated_content() {
    let long = "x".repeat(100);
    let line = format!(
        r#"{{"type":"user","message":{{"content":[{{"type":"text","text":"a"}},{{"type":"tool_result","content":"{long}"}}]}},"tool_use_result":{{"tool_name":"Bash"}}}}"#
    );
    let ParseResult::Parsed(items, _) = parse_line(&line) else {
        panic!("expected Parsed")
    };
    match &items[0] {
        TranscriptItem::ToolResult { tool_name, summary, content, .. } => {
            assert_eq!(tool_name, "Bash");
            assert_eq!(summary.len(), 80);
            assert_eq!(content.as_deref(), Some(long.as_str()));
        }
        _ => panic!("expected ToolResult"),
    }
}

#[test]
fn user_tool_result_without_anything_is_unknown() {
    let line = r#"{"type":"user","tool_use_result":{}}"#;
    let ParseResult::Parsed(items, _) = parse_line(line) else {
        panic!("expected Parsed")
    };
    assert!(matches!(&items[0], TranscriptItem::ToolResult { tool_name, summary, content: None, .. } if tool_name == "unknown" && summary == "unknown"));
}

#[test]
fn assistant_counts_text_bytes_and_tool_calls() {
    let line = r#"{"type":"assistant","message":{"content":[{"type":"text","text":"héllo"},{"type":"thinking","text":"hmm"},{"type":"tool_use","name":"Bash","input":{"command":"ls"}}]}}"#;
    let ParseResult::Parsed(items, meta) = parse_line(line) else {
        panic!("expected Parsed")
    };
    assert_eq!(items.len(), 3);
    assert!(matches!(&items[1], TranscriptItem::Thinking { text } if text == "hmm"));
    assert_eq!(meta.stats_delta.assistant_chars, 6);
    assert_eq!(meta.stats_delta.tool_calls, 1);
}

#[test]
fn result_defaults() {
    let ParseResult::Parsed(_, meta) = parse_line(r#"{"type":"result"}"#) else {
        panic!("expected Parsed")
    };
    let r = meta.session_result.unwrap();
    assert_eq!(r.subtype, "unknown");
    assert!(!r.is_error);
    assert_eq!(r.duration_ms, 0);
    assert_eq!(r.num_turns, 0);
    assert_eq!(r.total_cost_usd.text.parse::<f64>().unwrap(), 0.0);
    assert!(meta.stats_delta.cost_usd.is_some());
}

#[test]
fn system_other_subtype_uses_summary_or_json() {
    let ParseResult::Parsed(items, _) = parse_line(r#"{"type":"system","subtype":"compact","summary":"squeezed"}"#) else {
        panic!("expected Parsed")
    };
    assert!(matches!(&items[0], TranscriptItem::SystemEvent { label, detail } if label == "compact" && detail == "squeezed"));
    let line = r#"{"type":"system","subtype":"compact","summary":""}"#;
    let ParseResult::Parsed(items, _) = parse_line(line) else {
        panic!("expected Parsed")
    };
    assert!(matches!(&items[0], TranscriptItem::SystemEvent { detail, .. } if detail == r#"{"subtype":"compact","summary":"","type":"system"}"#));
}

#[test]
fn init_tools_may_be_objects() {
    let line = r#"{"type":"system","subtype":"init","tools":["Read",{"name":"Grep"},{"x":1},3],"timestamp":"2026-03-22T19:54:06Z"}"#;
    let ParseResult::Parsed(items, meta) = parse_line(line) else {
        panic!("expected Parsed")
    };
    match &items[0] {
        TranscriptItem::SessionStart { tools, timestamp, .. } => {
            assert_eq!(tools, &vec!["Read".to_string(), "Grep".to_string()]);
            assert_eq!(timestamp.secs, 1774209246);
        }
        _ => panic!("expected SessionStart"),
    }
    assert_eq!(meta.timestamp.map(|t| t.secs), Some(1774209246));
}

#[test]
fn tool_summaries() {
    let input = parse_json(r#"{"file_path":"/a/b.rs","command":"ls -la","pattern":"foo"}"#).unwrap();
    assert_eq!(extract_tool_summary("Read", Some(&input)), "/a/b.rs");
    assert_eq!(extract_tool_summary("Edit", Some(&input)), "/a/b.rs");
    assert_eq!(extract_tool_summary("Bash", Some(&input)), "ls -la");
    assert_eq!(extract_tool_summary("Grep", Some(&input)), "foo");
    assert_eq!(extract_tool_summary("Read", None), "Read");
    let other = parse_json(r#"{"zeta":"z","alpha":"first"}"#).unwrap();
    assert_eq!(extract_tool_summary("Custom", Some(&other)), "alpha=first");
    let nested = parse_json(r#"{"opts":{"n":1}}"#).unwrap();
    assert_eq!(extract_tool_summary("Custom", Some(&nested)), r#"opts={"n":1}"#);
    let empty_str = parse_json(r#"{"k":""}"#).unwrap();
    assert_eq!(extract_tool_summary("Custom", Some(&empty_str)), r#"k="""#);
    let empty = parse_json("{}").unwrap();
    assert_eq!(extract_tool_summary("Custom", Some(&empty)), "Custom");
}

#[test]
fn bash_summary_is_cut_at_80_bytes_on_a_char_boundary() {
    let cmd = format!("{}é", "a".repeat(79));
    let input = parse_json(&format!(r#"{{"command":"{cmd}"}}"#)).unwrap();
    assert_eq!(extract_tool_summary("Bash", Some(&input)), "a".repeat(79));
    let short = parse_json(r#"{"command":"echo hi"}"#).unwrap();
    assert_eq!(extract_tool_summary("Bash", Some(&short)), "echo hi");
}

#[test]
fn claude_parser_trait_matches_free_function() {
    let line = r#"{"type":"assistant","message":{"content":[{"type":"text","text":"x"}]}}"#;
    assert!(matches!(ClaudeCodeParser.parse_line(line), ParseResult::Parsed(items, _) if items.len() == 1));
}

#[test]
fn parse_assistant_thinking_block() {
    let line = r#"{"type":"assistant","message":{"content":[{"type":"thinking","text":"Let me think about this..."},{"type":"text","text":"Here is my answer"}],"role":"assistant"},"session_id":"abc"}"#;
    let ParseResult::Parsed(items, _) = parse_line(line) else {
        panic!("expected Parsed")
    };
    assert_eq!(items.len(), 2);
    assert!(matches!(&items[0], TranscriptItem::Thinking { text } if text == "Let me think about this..."));
    assert!(matches!(&items[1], TranscriptItem::AssistantText { text, .. } if text == "Here is my answer"));
}

#[test]
fn empty_thinking_block_is_dropped() {
    let line = r#"{"type":"assistant","message":{"content":[{"type":"thinking","text":""}]},"session_id":"abc"}"#;
    let ParseResult::Parsed(items, _) = parse_line(line) else {
        panic!("expected Parsed")
    };
    assert!(items.is_empty());
}

#[test]
fn parse_subagent_notification_usage() {
    let line = r#"{"type":"system","subtype":"task_notification","task_id":"t1","status":"completed","summary":"Did the thing","usage":{"total_tokens":1000,"tool_uses":5,"duration_ms":30000},"session_id":"abc"}"#;
    let ParseResult::Parsed(items, _) = parse_line(line) else {
        panic!("expected Parsed")
    };
    assert_eq!(items.len(), 1);
    assert!(matches!(
        &items[0],
        TranscriptItem::SubagentEnd { summary, status, cost_usd: None, duration_ms: Some(30000), tool_uses: Some(5), total_tokens: Some(1000) }
            if summary == "Did the thing" && status == "completed"
    ));
}

#[test]
fn parse_result_records_turns_and_tokens() {
    let line = r#"{"type":"result","subtype":"success","is_error":false,"duration_ms":60000,"num_turns":10,"total_cost_usd":2.5,"usage":{"input_tokens":300,"output_tokens":200},"session_id":"abc"}"#;
    let ParseResult::Parsed(items, meta) = parse_line(line) else {
        panic!("expected Parsed")
    };
    assert!(items.is_empty());
    assert_eq!(meta.stats_delta.num_turns, 10);
    assert_eq!(meta.stats_delta.token_count, 500);
}

#[test]
fn parse_json_reads_the_document() {
    let v = parse_json(r#"{"b":[1,{"c":null}],"a":"x","b2":true}"#).unwrap();
    assert_eq!(v.to_text(), r#"{"a":"x","b":[1,{"c":null}],"b2":true}"#);
    assert!(parse_json("{").is_err());
    let n = parse_json("  42 ").unwrap();
    assert_eq!(n.as_u64(), Some(42));
}
