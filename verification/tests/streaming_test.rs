use loupe::events::AppEvent;
use loupe::json::parse_json;
use loupe::streaming::{process_stream_event, DeltaAccumulator};

#[test]
fn accumulate_text_deltas() {
    let mut acc = DeltaAccumulator::new();
    acc.on_content_block_start("text");
    acc.on_text_delta("Hello ");
    assert_eq!(acc.current_text(), Some("Hello "));
    acc.on_text_delta("world");
    assert_eq!(acc.current_text(), Some("Hello world"));
}

#[test]
fn block_done_clears_buffer() {
    let mut acc = DeltaAccumulator::new();
    acc.on_content_block_start("text");
    acc.on_text_delta("Hello");
    acc.on_block_done();
    assert_eq!(acc.current_text(), None);
}

#[test]
fn ignores_deltas_without_block_start() {
    let mut acc = DeltaAccumulator::new();
    acc.on_text_delta("orphan");
    assert_eq!(acc.current_text(), None);
}

#[test]
fn tool_input_accumulation() {
    let mut acc = DeltaAccumulator::new();
    acc.on_content_block_start("tool_use");
    acc.on_input_json_delta(r#"{"file"#);
    acc.on_input_json_delta(r#"_path":"/foo"}"#);
    assert_eq!(acc.current_tool_input_json(), Some(r#"{"file_path":"/foo"}"#));
}

#[test]
fn process_stream_event_text_delta() {
    let mut acc = DeltaAccumulator::new();
    let start = parse_json(r#"{"type":"stream_event","event":{"type":"content_block_start","index":0,"content_block":{"type":"text","text":""}}}"#).unwrap();
    let result = process_stream_event(&start, 0, &mut acc);
    assert!(result.is_none());

    let delta = parse_json(r#"{"type":"stream_event","event":{"type":"content_block_delta","index":0,"delta":{"type":"text_delta","text":"Hello"}}}"#).unwrap();
    let result = process_stream_event(&delta, 0, &mut acc);
    assert!(matches!(result, Some(AppEvent::StreamDelta { text, .. }) if text == "Hello"));
}

#[test]
fn process_stream_event_content_block_stop() {
    let mut acc = DeltaAccumulator::new();
    acc.on_content_block_start("text");
    acc.on_text_delta("Hello");

    let stop = parse_json(r#"{"type":"stream_event","event":{"type":"content_block_stop","index":0}}"#).unwrap();
    process_stream_event(&stop, 0, &mut acc);
    assert_eq!(acc.current_text(), None);
}

#[test]
fn text_outside_text_block_is_not_shown() {
    let mut acc = DeltaAccumulator::new();
    acc.on_content_block_start("tool_use");
    acc.on_text_delta("ignored");
    assert_eq!(acc.current_text(), None);
    assert_eq!(acc.current_tool_input_json(), None);
}

#[test]
fn block_start_forgets_earlier_text() {
    let mut acc = DeltaAccumulator::new();
    acc.on_content_block_start("text");
    acc.on_text_delta("old");
    acc.on_content_block_start("text");
    assert_eq!(acc.current_text(), None);
    acc.on_text_delta("new");
    assert_eq!(acc.current_text(), Some("new"));
}

#[test]
fn reset_forgets_everything() {
    let mut acc = DeltaAccumulator::new();
    acc.on_content_block_start("tool_use");
    acc.on_input_json_delta("{}");
    acc.reset();
    assert_eq!(acc.current_tool_input_json(), None);
}

#[test]
fn input_json_delta_event_feeds_tool_input() {
    let mut acc = DeltaAccumulator::new();
    let start = parse_json(r#"{"type":"stream_event","event":{"type":"content_block_start","content_block":{"type":"tool_use"}}}"#).unwrap();
    assert!(process_stream_event(&start, 3, &mut acc).is_none());
    let delta = parse_json(r#"{"type":"stream_event","event":{"type":"content_block_delta","delta":{"type":"input_json_delta","partial_json":"{\"a\":1}"}}}"#).unwrap();
    assert!(process_stream_event(&delta, 3, &mut acc).is_none());
    assert_eq!(acc.current_tool_input_json(), Some(r#"{"a":1}"#));
}

#[test]
fn stream_delta_carries_run_id_and_whole_text() {
    let mut acc = DeltaAccumulator::new();
    acc.on_content_block_start("text");
    acc.on_text_delta("Hel");
    let delta = parse_json(r#"{"event":{"type":"content_block_delta","delta":{"type":"text_delta","text":"lo"}}}"#).unwrap();
    match process_stream_event(&delta, 7, &mut acc) {
        Some(AppEvent::StreamDelta { run_id, text }) => {
            assert_eq!(run_id, 7);
            assert_eq!(text, "Hello");
        }
        _ => panic!("expected a stream delta"),
    }
}
