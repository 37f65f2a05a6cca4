use loupe::codex_parser::{extract_codex_tool_summary, CodexParser};
use loupe::json::parse_json;
use loupe::parser::{ParseResult, TranscriptParser};
use loupe::run::TranscriptItem;

#[test]
fn parse_session_meta() {
    let parser = CodexParser;
    let line = r#"{"timestamp":"2026-03-22T19:54:06.506Z","type":"session_meta","payload":{"id":"sess-001","timestamp":"2026-03-22T19:54:06.501Z","cwd":"/home/user/project","originator":"codex_cli_rs","cli_version":"0.116.0","source":"cli","model_provider":"openai","base_instructions":{"text":"prompt"}}}"#;
    let ParseResult::Parsed(items, meta) = parser.parse_line(line) else {
        panic!("expected Parsed");
    };
    assert_eq!(items.len(), 1);
    assert!(matches!(&items[0], TranscriptItem::SessionStart { model, .. } if model.is_empty()));
    assert_eq!(meta.session_id, Some("sess-001".to_string()));
}

#[test]
fn parse_turn_context_extracts_model() {
    let parser = CodexParser;
    let line = r#"{"timestamp":"2026-03-22T19:54:06.507Z","type":"turn_context","payload":{"turn_id":"t1","model":"gpt-5.4","cwd":"/tmp"}}"#;
    let ParseResult::Parsed(items, _) = parser.parse_line(line) else {
        panic!("expected Parsed");
    };
    assert_eq!(items.len(), 1);
    assert!(matches!(&items[0], TranscriptItem::SessionStart { model, .. } if model == "gpt-5.4"));
}

#[test]
fn parse_user_message() {
    let parser = CodexParser;
    let line = r#"{"timestamp":"2026-03-22T19:54:06.507Z","type":"event_msg","payload":{"type":"user_message","message":"Hello world"}}"#;
    let ParseResult::Parsed(items, _) = parser.parse_line(line) else {
        panic!("expected Parsed");
    };
    assert_eq!(items.len(), 1);
    assert!(matches!(&items[0], TranscriptItem::UserMessage { text } if text == "Hello world"));
}

#[test]
fn parse_agent_message() {
    let parser = CodexParser;
    let line = r#"{"timestamp":"2026-03-22T19:54:06.507Z","type":"event_msg","payload":{"type":"agent_message","message":"Working on it.","phase":"commentary"}}"#;
    let ParseResult::Parsed(items, _) = parser.parse_line(line) else {
        panic!("expected Parsed");
    };
    assert_eq!(items.len(), 1);
    assert!(matches!(&items[0], TranscriptItem::AssistantText { text, .. } if text == "Working on it."));
}

#[test]
fn parse_function_call() {
    let parser = CodexParser;
    let line = r#"{"timestamp":"2026-03-22T19:54:09.000Z","type":"response_item","payload":{"type":"function_call","name":"exec_command","arguments":"{\"cmd\":\"cat README.md\",\"workdir\":\"/tmp\"}","call_id":"call_001"}}"#;
    let ParseResult::Parsed(items, _) = parser.parse_line(line) else {
        panic!("expected Parsed");
    };
    assert_eq!(items.len(), 1);
    assert!(matches!(&items[0], TranscriptItem::ToolUse { name, .. } if name == "exec_command"));
}

#[test]
fn parse_function_call_output() {
    let parser = CodexParser;
    let line = r#"{"timestamp":"2026-03-22T19:54:09.500Z","type":"response_item","payload":{"type":"function_call_output","call_id":"call_001","output":"file contents"}}"#;
    let ParseResult::Parsed(items, _) = parser.parse_line(line) else {
        panic!("expected Parsed");
    };
    assert_eq!(items.len(), 1);
    assert!(matches!(&items[0], TranscriptItem::ToolResult { .. }));
}

#[test]
fn parse_custom_tool_call() {
    let parser = CodexParser;
    let line = r#"{"timestamp":"2026-03-22T19:54:16.000Z","type":"response_item","payload":{"type":"custom_tool_call","status":"completed","call_id":"call_003","name":"apply_patch","input":"*** Begin Patch\n*** Update File: src/main.rs\n@@\n-old\n+new\n"}}"#;
    let ParseResult::Parsed(items, _) = parser.parse_line(line) else {
        panic!("expected Parsed");
    };
    assert_eq!(items.len(), 2);
    assert!(matches!(&items[0], TranscriptItem::ToolUse { name, .. } if name == "apply_patch"));
    assert!(matches!(&items[1], TranscriptItem::ToolResult { .. }));
}

#[test]
fn parse_assistant_output_text() {
    let parser = CodexParser;
    let line = r#"{"timestamp":"2026-03-22T19:54:06.507Z","type":"response_item","payload":{"type":"message","role":"assistant","content":[{"type":"output_text","text":"Hello from assistant"}],"phase":"commentary"}}"#;
    let ParseResult::Parsed(items, _) = parser.parse_line(line) else {
        panic!("expected Parsed");
    };
    assert_eq!(items.len(), 1);
    assert!(matches!(&items[0], TranscriptItem::AssistantText { text, .. } if text == "Hello from assistant"));
}

#[test]
fn skip_reasoning() {
    let parser = CodexParser;
    let line = r#"{"timestamp":"2026-03-22T19:54:06.507Z","type":"response_item","payload":{"type":"reasoning","summary":[],"content":null,"encrypted_content":"gAAAA"}}"#;
    assert!(matches!(parser.parse_line(line), ParseResult::Skipped));
}

#[test]
fn skip_developer_message() {
    let parser = CodexParser;
    let line = r#"{"timestamp":"2026-03-22T19:54:06.507Z","type":"response_item","payload":{"type":"message","role":"developer","content":[{"type":"input_text","text":"system stuff"}]}}"#;
    assert!(matches!(parser.parse_line(line), ParseResult::Skipped));
}

#[test]
fn skip_user_input_text() {
    let parser = CodexParser;
    let line = r#"{"timestamp":"2026-03-22T19:54:06.507Z","type":"response_item","payload":{"type":"message","role":"user","content":[{"type":"input_text","text":"<env_context/>"}]}}"#;
    assert!(matches!(parser.parse_line(line), ParseResult::Skipped));
}

#[test]
fn skip_token_count() {
    let parser = CodexParser;
    let line = r#"{"timestamp":"2026-03-22T19:54:06.507Z","type":"event_msg","payload":{"type":"token_count","info":null}}"#;
    assert!(matches!(parser.parse_line(line), ParseResult::Skipped));
}

#[test]
fn parse_task_started() {
    let parser = CodexParser;
    let line = r#"{"timestamp":"2026-03-22T19:54:06.507Z","type":"event_msg","payload":{"type":"task_started","turn_id":"t1","model_context_window":258400}}"#;
    let ParseResult::Parsed(items, _) = parser.parse_line(line) else {
        panic!("expected Parsed");
    };
    assert!(matches!(&items[0], TranscriptItem::SystemEvent { label, .. } if label == "task_started"));
}

#[test]
fn parse_task_complete() {
    let parser = CodexParser;
    let line = r#"{"timestamp":"2026-03-22T19:54:19.000Z","type":"event_msg","payload":{"type":"task_complete","turn_id":"t1","last_agent_message":"Done."}}"#;
    let ParseResult::Parsed(items, meta) = parser.parse_line(line) else {
        panic!("expected Parsed");
    };
    assert!(matches!(&items[0], TranscriptItem::RunResult { .. }));
    assert!(meta.session_result.is_some());
}

#[test]
fn parse_exec_command_summary() {
    let parser = CodexParser;
    let line = r#"{"timestamp":"2026-03-22T19:54:09.000Z","type":"response_item","payload":{"type":"function_call","name":"exec_command","arguments":"{\"cmd\":\"ls -la /tmp\",\"workdir\":\"/tmp\"}","call_id":"call_001"}}"#;
    let ParseResult::Parsed(items, _) = parser.parse_line(line) else {
        panic!("expected Parsed");
    };
    assert!(matches!(&items[0], TranscriptItem::ToolUse { summary, .. } if summary == "ls -la /tmp"));
}

#[test]
fn missing_payload_is_an_error() {
    let ParseResult::Error(m) = CodexParser.parse_line(r#"{"type":"event_msg"}"#) else {
        panic!("expected Error");
    };
    assert_eq!(m, "Missing 'payload' field");
}

#[test]
fn custom_tool_call_summary_and_result() {
    let line = r#"{"type":"response_item","payload":{"type":"custom_tool_call","name":"apply_patch","input":"first line\r\nsecond"}}"#;
    let ParseResult::Parsed(items, _) = CodexParser.parse_line(line) else {
        panic!("expected Parsed");
    };
    assert!(matches!(&items[0], TranscriptItem::ToolUse { summary, input: None, .. } if summary == "first line"));
    assert!(matches!(&items[1], TranscriptItem::ToolResult { tool_name, summary, content: Some(c), .. } if tool_name == "apply_patch" && summary == "unknown" && c == "first line\r\nsecond"));
    let no_input = r#"{"type":"response_item","payload":{"type":"custom_tool_call","name":"apply_patch"}}"#;
    let ParseResult::Parsed(items, _) = CodexParser.parse_line(no_input) else {
        panic!("expected Parsed");
    };
    assert!(matches!(&items[0], TranscriptItem::ToolUse { summary, .. } if summary == "apply_patch"));
}

#[test]
fn function_call_with_bad_arguments_has_no_input() {
    let line = r#"{"type":"response_item","payload":{"type":"function_call","name":"exec_command","arguments":"not json"}}"#;
    let ParseResult::Parsed(items, _) = CodexParser.parse_line(line) else {
        panic!("expected Parsed");
    };
    assert!(matches!(&items[0], TranscriptItem::ToolUse { summary, input: None, .. } if summary == "exec_command"));
}

#[test]
fn codex_summaries() {
    let args = parse_json(r#"{"message":"spawn me"}"#).unwrap();
    assert_eq!(extract_codex_tool_summary("spawn_agent", Some(&args)), "spawn me");
    assert_eq!(extract_codex_tool_summary("update_plan", Some(&args)), "update plan");
    assert_eq!(extract_codex_tool_summary("other", Some(&args)), "message=spawn me");
    assert_eq!(extract_codex_tool_summary("exec_command", Some(&args)), "message=spawn me");
    assert_eq!(extract_codex_tool_summary("exec_command", None), "exec_command");
}

#[test]
fn message_with_only_empty_output_is_skipped() {
    let line = r#"{"type":"response_item","payload":{"type":"message","role":"assistant","content":[{"type":"output_text","text":""}]}}"#;
    assert!(matches!(CodexParser.parse_line(line), ParseResult::Skipped));
}

#[test]
fn unknown_codex_event_is_a_system_event() {
    let line = r#"{"type":"compacted","payload":{}}"#;
    let ParseResult::Parsed(items, _) = CodexParser.parse_line(line) else {
        panic!("expected Parsed");
    };
    assert!(matches!(&items[0], TranscriptItem::SystemEvent { label, detail } if label == "compacted" && detail == r#"{"payload":{},"type":"compacted"}"#));
}

#[test]
fn codex_lines_carry_no_statistics() {
    let parser = CodexParser;
    let line = r#"{"timestamp":"2026-03-22T19:54:09.000Z","type":"response_item","payload":{"type":"function_call","name":"exec_command","arguments":"{\"cmd\":\"ls\"}","call_id":"c1"}}"#;
    let ParseResult::Parsed(_, meta) = parser.parse_line(line) else {
        panic!("expected Parsed");
    };
    assert_eq!(meta.stats_delta.tool_calls, 0);
    assert_eq!(meta.stats_delta.assistant_chars, 0);
    assert_eq!(meta.stats_delta.total_lines, 0);
    assert!(meta.stats_delta.cost_usd.is_none());
}
