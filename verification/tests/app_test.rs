use loupe::app::{App, ExpandMode};
use loupe::events::{AppEvent, FocusPane, KeyCode, KeyInput, ViewMode};
use loupe::json::JsonNumber;
use loupe::run::{RunStats, RunStatus, SessionResult, Timestamp, TranscriptItem};

fn key(c: char) -> KeyInput {
    KeyInput::plain(KeyCode::Char(c))
}

#[test]
fn run_discovered_adds_to_list() {
    let mut app = App::new(ViewMode::Transcript);
    app.update_state(AppEvent::RunDiscovered { run_id: 0, path: "a.jsonl".into() });
    assert_eq!(app.runs.len(), 1);
    assert_eq!(app.selected_run, Some(0));
}

#[test]
fn run_updated_appends_items() {
    let mut app = App::new(ViewMode::Transcript);
    app.update_state(AppEvent::RunDiscovered { run_id: 0, path: "a.jsonl".into() });
    app.update_state(AppEvent::RunUpdated {
        run_id: 0,
        new_items: vec![TranscriptItem::AssistantText { text: "hi".into(), is_partial: false }],
        raw_lines: vec![],
        stats_delta: RunStats { assistant_chars: 2, ..Default::default() },
        session_id: None,
        started_at: None,
    });
    assert_eq!(app.runs[0].items.len(), 1);
    assert_eq!(app.runs[0].stats.assistant_chars, 2);
}

#[test]
fn stream_delta_creates_partial() {
    let mut app = App::new(ViewMode::Transcript);
    app.update_state(AppEvent::RunDiscovered { run_id: 0, path: "a.jsonl".into() });
    app.update_state(AppEvent::StreamDelta { run_id: 0, text: "Hello".into() });
    assert_eq!(app.runs[0].items.len(), 1);
    assert!(matches!(&app.runs[0].items[0], TranscriptItem::AssistantText { is_partial: true, .. }));
}

#[test]
fn stream_block_done_replaces_partial() {
    let mut app = App::new(ViewMode::Transcript);
    app.update_state(AppEvent::RunDiscovered { run_id: 0, path: "a.jsonl".into() });
    app.update_state(AppEvent::StreamDelta { run_id: 0, text: "Hello".into() });
    app.update_state(AppEvent::StreamBlockDone {
        run_id: 0,
        item: TranscriptItem::AssistantText { text: "Hello world".into(), is_partial: false },
    });
    assert_eq!(app.runs[0].items.len(), 1);
    assert!(matches!(&app.runs[0].items[0], TranscriptItem::AssistantText { text, is_partial: false } if text == "Hello world"));
}

#[test]
fn quit_on_q() {
    let mut app = App::new(ViewMode::Transcript);
    app.handle_key(key('q'));
    assert!(app.should_quit);
}

#[test]
fn tab_toggles_focus() {
    let mut app = App::new(ViewMode::Transcript);
    assert_eq!(app.focus, FocusPane::MainViewer);
    app.handle_key(KeyInput::plain(KeyCode::Tab));
    assert_eq!(app.focus, FocusPane::RunList);
    app.handle_key(KeyInput::plain(KeyCode::Tab));
    assert_eq!(app.focus, FocusPane::MainViewer);
}

#[test]
fn view_mode_switching() {
    let mut app = App::new(ViewMode::Transcript);
    app.handle_key(key('2'));
    assert_eq!(app.view_mode, ViewMode::Tools);
    app.handle_key(key('3'));
    assert_eq!(app.view_mode, ViewMode::Raw);
}

#[test]
fn scroll_disables_auto_follow() {
    let mut app = App::new(ViewMode::Transcript);
    assert!(app.auto_follow);
    app.handle_key(key('k'));
    assert!(!app.auto_follow);
}

#[test]
fn g_uppercase_re_enables_auto_follow() {
    let mut app = App::new(ViewMode::Transcript);
    app.auto_follow = false;
    app.handle_key(key('G'));
    assert!(app.auto_follow);
}

fn app_with_items(items: Vec<TranscriptItem>) -> App {
    let mut app = App::new(ViewMode::Transcript);
    app.update_state(AppEvent::RunDiscovered { run_id: 0, path: "a.jsonl".into() });
    app.update_state(AppEvent::RunUpdated {
        run_id: 0,
        new_items: items,
        raw_lines: vec!["{}".to_string()],
        stats_delta: RunStats::default(),
        session_id: Some("s1".to_string()),
        started_at: Some(Timestamp { secs: 10, nanos: 0 }),
    });
    app
}

#[test]
fn search_finds_items_case_insensitively() {
    let mut app = app_with_items(vec![
        TranscriptItem::AssistantText { text: "Hello World".into(), is_partial: false },
        TranscriptItem::Error { message: "nothing".into() },
        TranscriptItem::ToolUse { name: "Read".into(), summary: "/tmp/WORLD.txt".into(), input: None },
    ]);
    app.handle_key(key('/'));
    assert!(app.search.is_active);
    for c in "world".chars() {
        app.handle_key(key(c));
    }
    assert_eq!(app.search.matches, vec![0, 2]);
    app.handle_key(KeyInput::plain(KeyCode::Enter));
    assert!(!app.search.is_active);
    assert!(app.search.highlights_visible);
    app.handle_key(key('n'));
    assert_eq!(app.search.current_match, 1);
    assert_eq!(app.scroll_offset, 2);
    app.handle_key(key('n'));
    assert_eq!(app.search.current_match, 0);
    assert_eq!(app.scroll_offset, 0);
    app.handle_key(key('N'));
    assert_eq!(app.search.current_match, 1);
    assert!(!app.auto_follow);
}

#[test]
fn search_backspace_and_escape() {
    let mut app = app_with_items(vec![TranscriptItem::SystemEvent { label: "ab".into(), detail: "".into() }]);
    app.handle_key(key('/'));
    app.handle_key(key('a'));
    app.handle_key(key('x'));
    assert!(app.search.matches.is_empty());
    app.handle_key(KeyInput::plain(KeyCode::Backspace));
    assert_eq!(app.search.query, "a");
    assert_eq!(app.search.matches, vec![0]);
    app.handle_key(KeyInput::plain(KeyCode::Esc));
    assert!(!app.search.is_active);
    assert!(app.search.query.is_empty());
    assert!(app.search.matches.is_empty());
}

#[test]
fn help_is_dismissed_by_any_key() {
    let mut app = App::new(ViewMode::Transcript);
    app.handle_key(key('?'));
    assert!(app.show_help);
    app.handle_key(key('q'));
    assert!(!app.show_help);
    assert!(!app.should_quit);
}

#[test]
fn ctrl_c_quits() {
    let mut app = App::new(ViewMode::Transcript);
    app.handle_key(KeyInput { code: KeyCode::Char('c'), ctrl: true });
    assert!(app.should_quit);
}

#[test]
fn run_list_navigation() {
    let mut app = App::new(ViewMode::Transcript);
    for i in 0..3 {
        app.update_state(AppEvent::RunDiscovered { run_id: i, path: format!("{i}.jsonl").into() });
    }
    app.handle_key(KeyInput::plain(KeyCode::Tab));
    app.handle_key(key('g'));
    assert_eq!(app.selected_run, Some(0));
    app.handle_key(key('j'));
    app.handle_key(key('j'));
    app.handle_key(key('j'));
    assert_eq!(app.selected_run, Some(2));
    app.handle_key(key('k'));
    assert_eq!(app.selected_run, Some(1));
    app.handle_key(key('G'));
    assert_eq!(app.selected_run, Some(2));
    app.update_state(AppEvent::RunUpdated {
        run_id: 1,
        new_items: vec![],
        raw_lines: vec![],
        stats_delta: RunStats::default(),
        session_id: None,
        started_at: None,
    });
    app.auto_follow = false;
    app.handle_key(key('f'));
    assert_eq!(app.selected_run, Some(1));
    assert!(app.auto_follow);
}

#[test]
fn main_viewer_scrolling() {
    let mut app = app_with_items(vec![
        TranscriptItem::Error { message: "a".into() },
        TranscriptItem::Error { message: "b".into() },
        TranscriptItem::Error { message: "c".into() },
    ]);
    app.handle_key(KeyInput::plain(KeyCode::PageDown));
    assert_eq!(app.scroll_offset, 20);
    app.handle_key(KeyInput::plain(KeyCode::Up));
    assert_eq!(app.scroll_offset, 19);
    app.handle_key(KeyInput::plain(KeyCode::PageUp));
    assert_eq!(app.scroll_offset, 0);
    app.handle_key(KeyInput::plain(KeyCode::End));
    assert_eq!(app.scroll_offset, 2);
    assert!(app.auto_follow);
    app.handle_key(KeyInput::plain(KeyCode::Home));
    assert_eq!(app.scroll_offset, 0);
    assert!(!app.auto_follow);
}

#[test]
fn enter_toggles_tool_expansion() {
    let mut app = app_with_items(vec![
        TranscriptItem::ToolUse { name: "Read".into(), summary: "x".into(), input: None },
        TranscriptItem::Error { message: "b".into() },
    ]);
    app.handle_key(KeyInput::plain(KeyCode::Enter));
    assert!(app.expanded_tools.contains(&0));
    app.handle_key(KeyInput::plain(KeyCode::Enter));
    assert!(!app.expanded_tools.contains(&0));
    app.handle_key(key('j'));
    app.handle_key(KeyInput::plain(KeyCode::Enter));
    assert!(app.expanded_tools.is_empty());
}

#[test]
fn e_cycles_expand_mode() {
    let mut app = App::new(ViewMode::Transcript);
    assert_eq!(app.expand_mode, ExpandMode::Off);
    app.handle_key(key('e'));
    assert_eq!(app.expand_mode, ExpandMode::Edits);
    app.handle_key(key('e'));
    assert_eq!(app.expand_mode, ExpandMode::All);
    app.handle_key(key('e'));
    assert_eq!(app.expand_mode, ExpandMode::Off);
}

#[test]
fn run_updated_keeps_first_session_id_and_merges_stats() {
    let mut app = app_with_items(vec![]);
    app.update_state(AppEvent::RunUpdated {
        run_id: 0,
        new_items: vec![],
        raw_lines: vec!["x".to_string()],
        stats_delta: RunStats { tool_calls: 3, num_turns: 4, ..Default::default() },
        session_id: Some("s2".to_string()),
        started_at: Some(Timestamp { secs: 99, nanos: 0 }),
    });
    let run = &app.runs[0];
    assert_eq!(run.session_id.as_deref(), Some("s1"));
    assert_eq!(run.started_at, Some(Timestamp { secs: 10, nanos: 0 }));
    assert_eq!(run.stats.tool_calls, 3);
    assert_eq!(run.stats.num_turns, 4);
    assert_eq!(run.raw_lines, vec!["{}".to_string(), "x".to_string()]);
    assert_eq!(run.status, RunStatus::Running);
}

#[test]
fn run_completed_sets_status_and_cost() {
    let mut app = app_with_items(vec![]);
    let result = SessionResult {
        subtype: "error".into(),
        is_error: true,
        duration_ms: 1,
        num_turns: 2,
        total_cost_usd: JsonNumber { text: "1.25".into(), unsigned: None },
        stop_reason: None,
        result_text: None,
    };
    app.update_state(AppEvent::RunCompleted { run_id: 0, result });
    let run = &app.runs[0];
    assert_eq!(run.status, RunStatus::Failed);
    assert!(run.ended_at.is_some());
    assert_eq!(run.stats.cost_usd.as_ref().map(|c| c.text.as_str()), Some("1.25"));
}

#[test]
fn parse_error_adds_error_item() {
    let mut app = app_with_items(vec![]);
    app.update_state(AppEvent::ParseError { run_id: 0, line_no: 42, error: "bad".into() });
    assert_eq!(app.runs[0].stats.parse_errors, 1);
    assert!(matches!(&app.runs[0].items[0], TranscriptItem::Error { message } if message == "Line 42: bad"));
}

#[test]
fn events_for_unknown_runs_change_nothing_but_dirty() {
    let mut app = App::new(ViewMode::Transcript);
    app.dirty = false;
    app.update_state(AppEvent::StreamDelta { run_id: 5, text: "x".into() });
    assert!(app.runs.is_empty());
    assert!(app.dirty);
}

#[test]
fn stale_running_runs_become_unknown() {
    let mut app = app_with_items(vec![]);
    app.runs[0].last_modified = Some(Timestamp { secs: 100, nanos: 500 });
    app.dirty = false;
    app.expire_stale_runs(Timestamp { secs: 160, nanos: 600 });
    assert_eq!(app.runs[0].status, RunStatus::Running);
    assert!(!app.dirty);
    app.expire_stale_runs(Timestamp { secs: 161, nanos: 500 });
    assert_eq!(app.runs[0].status, RunStatus::Unknown);
    assert!(app.dirty);
}

#[test]
fn search_matches_run_results_by_stop_reason_and_text() {
    let mut app = app_with_items(vec![
        TranscriptItem::RunResult {
            is_error: false,
            stop_reason: Some("end_turn".into()),
            num_turns: 3,
            total_cost_usd: JsonNumber { text: "0.5".into(), unsigned: None },
            duration_ms: 1000,
            result_text: Some("All DONE".into()),
        },
        TranscriptItem::AssistantText { text: "nothing here".into(), is_partial: false },
    ]);
    app.handle_key(key('/'));
    for c in "done".chars() {
        app.handle_key(key(c));
    }
    assert_eq!(app.search.matches, vec![0]);
    app.handle_key(KeyInput::plain(KeyCode::Esc));
    app.handle_key(key('/'));
    for c in "end_t".chars() {
        app.handle_key(key(c));
    }
    assert_eq!(app.search.matches, vec![0]);
}

#[test]
fn run_completion_records_turns() {
    let mut app = app_with_items(vec![TranscriptItem::Error { message: "x".into() }]);
    app.update_state(AppEvent::RunCompleted {
        run_id: 0,
        result: SessionResult {
            subtype: "success".into(),
            is_error: false,
            duration_ms: 10,
            num_turns: 7,
            total_cost_usd: JsonNumber { text: "1".into(), unsigned: Some(1) },
            stop_reason: None,
            result_text: None,
        },
    });
    assert_eq!(app.runs[0].stats.num_turns, 7);
}

#[test]
fn stepping_from_just_past_the_last_match() {
    let mut app = app_with_items(vec![
        TranscriptItem::Error { message: "a".into() },
        TranscriptItem::Error { message: "b".into() },
        TranscriptItem::Error { message: "c".into() },
    ]);
    app.search.matches = vec![0, 2];
    app.search.current_match = 2;
    app.search.highlights_visible = true;
    app.handle_key(key('N'));
    assert_eq!(app.search.current_match, 1);
    assert_eq!(app.scroll_offset, 2);
    app.search.current_match = 2;
    app.handle_key(key('n'));
    assert_eq!(app.search.current_match, 1);
}
