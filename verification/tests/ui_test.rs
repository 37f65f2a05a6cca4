use loupe::app::{App, ExpandMode};
use loupe::events::{FocusPane, ViewMode};
use loupe::json::{parse_json, JsonNumber};
use loupe::run::{Run, RunStatus, Timestamp, TranscriptItem};
use loupe::ui::help::{centered_rect, help_text, Area};
use loupe::ui::highlight::{render_edit, render_patch, tint_green, tint_red, Highlighter};
use loupe::ui::raw_view::raw_lines_view;
use loupe::ui::run_list::{run_entry_lines, run_entry_of};
use loupe::ui::run_summary::summary_lines;
use loupe::ui::search::SearchState;
use loupe::ui::status_bar::status_bar_text;
use loupe::ui::style::Color;
use loupe::ui::tools_view::tool_lines;
use loupe::ui::transcript::{
    content_width, follow_scroll, pane_border, transcript_lines, transcript_placeholder,
    transcript_title, truncate, TranscriptCache,
};

fn texts(lines: &[loupe::ui::style::StyledLine]) -> Vec<String> {
    lines.iter().map(|l| l.to_text()).collect()
}

#[test]
fn truncate_adds_an_ellipsis() {
    assert_eq!(truncate("hello world", 5), "hell…");
    assert_eq!(truncate("hi", 5), "hi");
    assert_eq!(truncate("hello", 5), "hello");
    assert_eq!(truncate("x", 0), "");
}

#[test]
fn tints_shift_the_colour() {
    assert_eq!(tint_green(Color::Rgb(100, 200, 50)), Color::Rgb(70, 255, 35));
    assert_eq!(tint_red(Color::Rgb(250, 100, 10)), Color::Rgb(255, 70, 7));
    assert_eq!(tint_green(Color::Red), Color::Green);
    assert_eq!(tint_red(Color::Blue), Color::Red);
}

#[test]
fn patch_lines_are_classified() {
    let hl = Highlighter::new();
    let lines = render_patch("*** Update File: a.rs\n@@ -1 +1 @@\n-x\n+y\n ctx\nbare", 40, &hl);
    let t = texts(&lines);
    assert_eq!(t.len(), 6);
    assert_eq!(t[0], "         │ *** Update File: a.rs");
    assert_eq!(t[1], "         │ @@ -1 +1 @@");
    assert_eq!(t[2], "         │ -x");
    assert_eq!(t[3], "         │ +y");
    assert_eq!(t[4], "         │  ctx");
    assert_eq!(t[5], "         │ bare");
    assert_eq!(lines[2].spans[2].style.fg, Some(Color::Red));
    assert_eq!(lines[3].spans[2].style.fg, Some(Color::Green));
}

#[test]
fn edit_input_becomes_a_patch() {
    let hl = Highlighter::new();
    let input = parse_json(r#"{"file_path":"src/x.rs","old_string":"a\nb","new_string":"c"}"#).unwrap();
    let t = texts(&render_edit(&input, 40, &hl));
    assert_eq!(
        t,
        vec![
            "         │ *** Update File: src/x.rs",
            "         │ @@",
            "         │ -a",
            "         │ -b",
            "         │ +c",
        ]
    );
}

fn no_costs(items: &[TranscriptItem]) -> Vec<Option<String>> {
    items.iter().map(|_| None).collect()
}

#[test]
fn transcript_of_session_and_tool() {
    let hl = Highlighter::new();
    let items = vec![
        TranscriptItem::SessionStart {
            model: "opus".into(),
            tools: vec!["Read".into(), "Edit".into(), "Bash".into()],
            timestamp: Timestamp { secs: 0, nanos: 0 },
        },
        TranscriptItem::ToolUse { name: "Read".into(), summary: "src/main.rs".into(), input: None },
        TranscriptItem::Error { message: "boom".into() },
    ];
    let lines = transcript_lines(&items, ExpandMode::Off, &String::new(), false, 40, &no_costs(&items), &hl);
    assert_eq!(
        texts(&lines),
        vec!["SESSION  opus · 3 tools", "", "TOOL     Read  src/main.rs", "ERROR    boom"]
    );
}

#[test]
fn expanded_tool_input_shows_pretty_json() {
    let hl = Highlighter::new();
    let input = parse_json(r#"{"command":"ls","n":[1,2]}"#).unwrap();
    let items = vec![TranscriptItem::ToolUse { name: "Bash".into(), summary: "ls".into(), input: Some(input) }];
    let off = transcript_lines(&items, ExpandMode::Edits, &String::new(), false, 40, &no_costs(&items), &hl);
    assert_eq!(off.len(), 1);
    let all = transcript_lines(&items, ExpandMode::All, &String::new(), false, 40, &no_costs(&items), &hl);
    assert_eq!(
        texts(&all),
        vec![
            "TOOL     Bash  ls",
            "         │ {",
            "         │   \"command\": \"ls\",",
            "         │   \"n\": [",
            "         │     1,",
            "         │     2",
            "         │   ]",
            "         │ }",
        ]
    );
}

#[test]
fn subagent_end_and_result_lines() {
    let hl = Highlighter::new();
    let items = vec![
        TranscriptItem::SubagentEnd {
            summary: "done".into(),
            status: "completed".into(),
            cost_usd: Some(JsonNumber { text: "0.5".into(), unsigned: None }),
            duration_ms: Some(125_000),
            tool_uses: Some(9),
            total_tokens: Some(50_000),
        },
        TranscriptItem::RunResult {
            is_error: false,
            stop_reason: Some("end_turn".into()),
            num_turns: 10,
            total_cost_usd: JsonNumber { text: "2.5".into(), unsigned: None },
            duration_ms: 65_000,
            result_text: Some("All done".into()),
        },
    ];
    let costs = vec![Some("$0.50".to_string()), Some("$2.50".to_string())];
    let lines = transcript_lines(&items, ExpandMode::All, &String::new(), false, 40, &costs, &hl);
    assert_eq!(
        texts(&lines),
        vec![
            "  └─     completed · 2m · 9 tools · 50k tok · $0.50 · done",
            "",
            "RESULT   ✓ end_turn · 10 turns · $2.50 · 1m 05s",
            "         │ All done",
            "",
        ]
    );
}

#[test]
fn thinking_collapsed_and_expanded() {
    let hl = Highlighter::new();
    let items = vec![TranscriptItem::Thinking { text: "ab\ncd".into() }];
    let off = transcript_lines(&items, ExpandMode::Off, &String::new(), false, 40, &no_costs(&items), &hl);
    assert_eq!(texts(&off), vec!["THINK    ▶ 5 chars", ""]);
    let all = transcript_lines(&items, ExpandMode::All, &String::new(), false, 40, &no_costs(&items), &hl);
    assert_eq!(texts(&all), vec!["THINK    ▼ 5 chars", "         │ ab", "         │ cd", ""]);
}

#[test]
fn partial_text_has_a_cursor() {
    let hl = Highlighter::new();
    let items = vec![TranscriptItem::AssistantText { text: "hi".into(), is_partial: true }];
    let lines = transcript_lines(&items, ExpandMode::Off, &String::new(), false, 40, &no_costs(&items), &hl);
    assert_eq!(texts(&lines), vec!["ASSIST   hi▌", ""]);
}

#[test]
fn tool_result_box_when_all() {
    let hl = Highlighter::new();
    let items = vec![TranscriptItem::ToolResult {
        tool_name: "Bash".into(),
        summary: "ok".into(),
        content: Some("line1\nline2".into()),
        duration_ms: None,
    }];
    let off = transcript_lines(&items, ExpandMode::Edits, &String::new(), false, 40, &no_costs(&items), &hl);
    assert!(off.is_empty());
    let all = transcript_lines(&items, ExpandMode::All, &String::new(), false, 40, &no_costs(&items), &hl);
    assert_eq!(
        texts(&all),
        vec!["         ┌─ result ─", "         │ line1", "         │ line2", "         └──────────"]
    );
}

#[test]
fn tool_list_lines() {
    let items = vec![
        TranscriptItem::ToolUse { name: "Read".into(), summary: "a.rs".into(), input: None },
        TranscriptItem::ToolResult { tool_name: "Read".into(), summary: "10 lines".into(), content: None, duration_ms: None },
        TranscriptItem::Error { message: "x".into() },
        TranscriptItem::SubagentProgress { description: "looking".into(), tool_name: None },
    ];
    let t = texts(&tool_lines(&items, &no_costs(&items)));
    assert_eq!(
        t,
        vec![
            "Read            a.rs",
            "  ↳ Read        10 lines",
            "  ├─ …          looking",
        ]
    );
}

#[test]
fn run_summary_lines() {
    let mut run = Run::new(0, "r.jsonl".into());
    run.stats.num_turns = 3;
    run.stats.tool_calls = 2;
    run.stats.token_count = 1500;
    run.status = RunStatus::Completed;
    let t = texts(&summary_lines(&run, Some(75), &Some("$1.00".to_string()), &"0.0".to_string()));
    assert_eq!(t, vec![" 3 turns", " 2 tools", " 1k tok", " $1.00", " 1m 15s", " ✓ ok"]);
}

#[test]
fn run_list_entry() {
    let name = "run1".to_string();
    let t = texts(&run_entry_lines(RunStatus::Failed, &name, Some(30)));
    assert_eq!(t, vec![" ✗ run1", "   30s failed"]);
    let t = texts(&run_entry_lines(RunStatus::Running, &name, Some(130)));
    assert_eq!(t, vec![" ● run1", "   2m running"]);
}

#[test]
fn status_bar_lists_what_is_on() {
    let t = status_bar_text(2, Some(65), &None, ExpandMode::All, true, FocusPane::RunList);
    assert_eq!(t, " 2 runs │ 1m05s │ expand │ follow  [runs] Tab  / search  ? help  q quit");
    let t = status_bar_text(0, None, &None, ExpandMode::Off, false, FocusPane::MainViewer);
    assert_eq!(t, " 0 runs  [viewer] Tab  / search  ? help  q quit");
}

#[test]
fn search_bar_counts_matches() {
    let mut s = SearchState::new();
    s.query = "foo".into();
    assert_eq!(s.bar_text(), " /foo");
    s.matches = vec![1, 4, 7];
    s.current_match = 1;
    assert_eq!(s.bar_text(), " /foo  2/3");
}

#[test]
fn help_box_is_centered() {
    let r = centered_rect(60, 20, Area { x: 0, y: 0, width: 100, height: 40 });
    assert_eq!(r, Area { x: 20, y: 10, width: 60, height: 20 });
    let r = centered_rect(60, 20, Area { x: 0, y: 0, width: 40, height: 10 });
    assert_eq!(r, Area { x: 0, y: 0, width: 40, height: 10 });
    assert!(help_text().starts_with("Press any key to close"));
}

#[test]
fn raw_lines_are_numbered_and_cut() {
    let raw = vec!["abcdefghij".to_string(), "xy".to_string()];
    let t = texts(&raw_lines_view(&raw, 10));
    assert_eq!(t, vec!["   1 abcde", "   2 xy"]);
}

#[test]
fn transcript_pane_chrome() {
    assert_eq!(transcript_title(ExpandMode::Off), " Transcript ");
    assert_eq!(transcript_title(ExpandMode::Edits), " Transcript [edits] ");
    assert_eq!(transcript_title(ExpandMode::All), " Transcript [all] ");
    assert_eq!(pane_border(true).fg, Some(Color::Blue));
    assert!(pane_border(false).add.dim);
    assert_eq!(content_width(50), 41);
    assert_eq!(content_width(5), 0);
    let app = App::new(ViewMode::Transcript);
    assert_eq!(transcript_placeholder(&app), Some("Waiting for runs...".to_string()));
}

#[test]
fn following_scrolls_to_the_end() {
    assert_eq!(follow_scroll(100, 20, true, 3), 80);
    assert_eq!(follow_scroll(100, 20, false, 90), 80);
    assert_eq!(follow_scroll(10, 20, true, 5), 0);
    assert_eq!(follow_scroll(100, 20, false, 7), 7);
}

#[test]
fn cache_is_valid_for_what_it_stored() {
    let mut c = TranscriptCache::new();
    assert!(!c.is_valid(Some(0), 1, ExpandMode::Off, "", false, 40));
    c.store(Vec::new(), Some(0), 1, ExpandMode::Off, "", false, 40);
    assert!(c.is_valid(Some(0), 1, ExpandMode::Off, "", false, 40));
    assert!(!c.is_valid(Some(0), 2, ExpandMode::Off, "", false, 40));
}

#[test]
fn run_list_names_runs_by_file_stem() {
    let now = Timestamp { secs: 100, nanos: 0 };
    let run = Run::new(0, "logs/session-1.jsonl".into());
    assert_eq!(texts(&run_entry_of(&run, now))[0], " ? session-1");
    let run = Run::new(1, "/tmp/a.b.jsonl".into());
    assert_eq!(texts(&run_entry_of(&run, now))[0], " ? a.b");
    let run = Run::new(2, "".into());
    assert_eq!(texts(&run_entry_of(&run, now))[0], " ? ???");
    let run = Run::new(3, "logs/..".into());
    assert_eq!(texts(&run_entry_of(&run, now))[0], " ? ???");
}
