use loupe::app::{App, ExpandMode};
use loupe::events::{AppEvent, KeyCode, KeyInput, ViewMode};
use loupe::run::{RunStats, RunStatus, Timestamp, TranscriptItem};
use loupe::streaming::DeltaAccumulator;
use loupe::ui::highlight::{render_patch, Highlighter};
use loupe::ui::markdown::{parse_markdown, MdBlock};
use loupe::ui::style::Style;
use loupe::ui::wrap::{soft_wrap_plain, split_for_highlight, wrap_chunks, MarkdownRenderOptions};
use loupe::watcher::read_plan;

fn key(c: char) -> KeyInput {
    KeyInput::plain(KeyCode::Char(c))
}

#[test]
fn any_key_closes_help() {
    let mut app = App::new(ViewMode::Transcript);
    app.handle_key(key('?'));
    assert!(app.show_help);
    app.handle_key(key('2'));
    assert!(!app.show_help);
    assert_eq!(app.view_mode, ViewMode::Transcript);
}

#[test]
fn expand_mode_cycles_through_three() {
    let mut app = App::new(ViewMode::Transcript);
    assert_eq!(app.expand_mode, ExpandMode::Off);
    app.handle_key(key('e'));
    assert_eq!(app.expand_mode, ExpandMode::Edits);
    app.handle_key(key('e'));
    assert_eq!(app.expand_mode, ExpandMode::All);
    app.handle_key(key('e'));
    assert_eq!(app.expand_mode, ExpandMode::Off);
}

#[test]
fn search_next_then_prev_returns() {
    let mut app = App::new(ViewMode::Transcript);
    app.search.matches = vec![2, 5, 7];
    app.search.current_match = 2;
    app.search.highlights_visible = true;
    app.handle_key(key('n'));
    assert_eq!(app.search.current_match, 0);
    assert_eq!(app.scroll_offset, 2);
    app.handle_key(key('N'));
    assert_eq!(app.search.current_match, 2);
    assert_eq!(app.scroll_offset, 7);
}

#[test]
fn merging_nothing_keeps_totals() {
    let mut s = RunStats { tool_calls: 3, num_turns: 4, token_count: 10, ..Default::default() };
    s.merge(&RunStats::default());
    assert_eq!(s.tool_calls, 3);
    assert_eq!(s.num_turns, 4);
    assert_eq!(s.token_count, 10);
}

#[test]
fn runs_quiet_past_a_minute_turn_unknown() {
    let mut app = App::new(ViewMode::Transcript);
    app.update_state(AppEvent::RunDiscovered { run_id: 0, path: "a.jsonl".into() });
    app.runs[0].status = RunStatus::Running;
    app.runs[0].last_modified = Some(Timestamp { secs: 1000, nanos: 0 });
    app.expire_stale_runs(Timestamp { secs: 1030, nanos: 0 });
    assert_eq!(app.runs[0].status, RunStatus::Running);
    app.expire_stale_runs(Timestamp { secs: 1061, nanos: 0 });
    assert_eq!(app.runs[0].status, RunStatus::Unknown);
}

#[test]
fn deltas_keep_one_partial_item() {
    let mut app = App::new(ViewMode::Transcript);
    app.update_state(AppEvent::RunDiscovered { run_id: 0, path: "a.jsonl".into() });
    app.update_state(AppEvent::StreamDelta { run_id: 0, text: "a".into() });
    app.update_state(AppEvent::StreamDelta { run_id: 0, text: "ab".into() });
    assert_eq!(app.runs[0].items.len(), 1);
    app.update_state(AppEvent::StreamBlockDone {
        run_id: 0,
        item: TranscriptItem::AssistantText { text: "abc".into(), is_partial: false },
    });
    assert_eq!(app.runs[0].items.len(), 1);
    assert!(matches!(&app.runs[0].items[0], TranscriptItem::AssistantText { text, is_partial: false } if text == "abc"));
}

#[test]
fn tool_input_accumulates_in_tool_blocks_only() {
    let mut acc = DeltaAccumulator::new();
    acc.on_input_json_delta("{\"a\"");
    assert_eq!(acc.current_tool_input_json(), None);
    acc.on_content_block_start("tool_use");
    acc.on_input_json_delta("{\"a\"");
    acc.on_input_json_delta(":1}");
    assert_eq!(acc.current_tool_input_json(), Some("{\"a\":1}"));
    acc.on_block_done();
    assert_eq!(acc.current_tool_input_json(), None);
}

#[test]
fn soft_wrap_pieces_rejoin_to_the_line() {
    let line = "héllo wörld, ünïcode";
    let pieces = soft_wrap_plain(line, 3);
    assert_eq!(pieces.concat(), line);
    assert!(pieces.iter().all(|p| p.chars().count() <= 3 && !p.is_empty()));
}

#[test]
fn wrapped_lines_never_exceed_the_width() {
    let blocks = parse_markdown("a **bold** word and `code` and more text", Style::new());
    let opts = MarkdownRenderOptions {
        label: String::new(),
        label_style: Style::new(),
        content_cols: 7,
        base_style: Style::new(),
        search_query: String::new(),
        search_active: false,
    };
    match &blocks[0] {
        MdBlock::Paragraph(chunks) => {
            let lines = wrap_chunks(chunks, 7, "", &opts);
            assert!(lines.len() > 1);
            assert!(lines.iter().all(|l| l.to_text().chars().count() <= 7));
            let all: String = lines.iter().map(|l| l.to_text()).collect();
            assert_eq!(all, "a bold word and code and more text");
        }
        _ => panic!("not a paragraph"),
    }
}

#[test]
fn marking_matches_keeps_the_text() {
    for (text, query) in [("İstanbul and istanbul", "ist"), ("aaaa", "aa"), ("Straße", "SS"), ("x", "x")] {
        let spans = split_for_highlight(text, query, Style::new());
        let joined: String = spans.iter().map(|s| s.text.as_str()).collect();
        assert_eq!(joined, text);
    }
}

#[test]
fn one_screen_line_per_patch_line() {
    let hl = Highlighter::new();
    let patch = "*** Begin Patch\n*** Update File: a.py\n@@\n-x = 1\n+x = 2\n*** End Patch\n";
    assert_eq!(render_patch(patch, 40, &hl).len(), patch.lines().count());
}

#[test]
fn read_plan_follows_the_file_size() {
    assert_eq!(read_plan(10, 10), None);
    assert_eq!(read_plan(20, 10), Some(10));
    assert_eq!(read_plan(5, 10), Some(0));
    assert_eq!(read_plan(0, 10), Some(0));
}

#[test]
fn search_step_methods_return_to_the_match() {
    let mut app = App::new(ViewMode::Transcript);
    app.update_state(AppEvent::RunDiscovered { run_id: 0, path: "a.jsonl".into() });
    app.search.matches = vec![1, 4, 6];
    app.search.current_match = 2;
    app.search_next();
    assert_eq!(app.search.current_match, 0);
    app.search_prev();
    assert_eq!(app.search.current_match, 2);
    assert_eq!(app.scroll_offset, 6);
    assert!(!app.auto_follow);
}

#[test]
fn toggling_a_tool_twice_restores_the_expanded_set() {
    let mut app = App::new(ViewMode::Transcript);
    app.update_state(AppEvent::RunDiscovered { run_id: 0, path: "a.jsonl".into() });
    app.update_state(AppEvent::RunUpdated {
        run_id: 0,
        new_items: vec![TranscriptItem::ToolUse { name: "Read".into(), summary: "x".into(), input: None }],
        raw_lines: vec!["{}".to_string()],
        stats_delta: RunStats::default(),
        session_id: None,
        started_at: None,
    });
    app.selected_run = Some(0);
    app.scroll_offset = 0;
    app.toggle_tool_expansion();
    assert!(app.expanded_tools.contains(&0));
    app.toggle_tool_expansion();
    assert!(app.expanded_tools.is_empty());
}
