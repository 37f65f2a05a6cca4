//! Events the viewer reacts to, and the modes it can show.

use crate::run::{
    items_model, opt_str, strs_model, ItemModel, RunStats, SessionResult, SessionResultModel,
    StatsModel, Timestamp, TranscriptItem,
};
use vstd::prelude::*;

verus! {

/// A key the user pressed.
#[derive(Clone, Copy, Debug, PartialEq, Eq, Structural)]
pub enum KeyCode {
    Char(char),
    Esc,
    Enter,
    Backspace,
    Tab,
    Up,
    Down,
    PageUp,
    PageDown,
    Home,
    End,
    Other,
}

/// A key press and whether Control was held.
#[derive(Clone, Copy, Debug, PartialEq, Eq, Structural)]
pub struct KeyInput {
    pub code: KeyCode,
    pub ctrl: bool,
}

impl KeyInput {
    /// A key press without modifiers.
    pub fn plain(code: KeyCode) -> (r: KeyInput)
        ensures
            r == (KeyInput { code, ctrl: false }),
    {
        KeyInput { code, ctrl: false }
    }
}

pub enum AppEvent {
    /// A transcript file was found; `path` is its path as text.
    RunDiscovered { run_id: usize, path: String },
    RunUpdated {
        run_id: usize,
        new_items: Vec<TranscriptItem>,
        raw_lines: Vec<String>,
        stats_delta: RunStats,
        session_id: Option<String>,
        started_at: Option<Timestamp>,
    },
    RunCompleted { run_id: usize, result: SessionResult },
    StreamDelta { run_id: usize, text: String },
    StreamBlockDone { run_id: usize, item: TranscriptItem },
    ParseError { run_id: usize, line_no: usize, error: String },
    Key(KeyInput),
    Resize(u16, u16),
    Tick,
}

/// Model of an event.
pub enum EventModel {
    RunDiscovered { run_id: usize, path: Seq<char> },
    RunUpdated {
        run_id: usize,
        new_items: Seq<ItemModel>,
        raw_lines: Seq<Seq<char>>,
        stats_delta: StatsModel,
        session_id: Option<Seq<char>>,
        started_at: Option<Timestamp>,
    },
    RunCompleted { run_id: usize, result: SessionResultModel },
    StreamDelta { run_id: usize, text: Seq<char> },
    StreamBlockDone { run_id: usize, item: ItemModel },
    ParseError { run_id: usize, line_no: usize, error: Seq<char> },
    Key(KeyInput),
    Resize(u16, u16),
    Tick,
}

impl AppEvent {
    pub open spec fn model(&self) -> EventModel {
        match self {
            AppEvent::RunDiscovered { run_id, path } => EventModel::RunDiscovered {
                run_id: *run_id,
                path: path@,
            },
            AppEvent::RunUpdated {
                run_id,
                new_items,
                raw_lines,
                stats_delta,
                session_id,
                started_at,
            } => EventModel::RunUpdated {
                run_id: *run_id,
                new_items: items_model(new_items@),
                raw_lines: strs_model(raw_lines@),
                stats_delta: stats_delta.model(),
                session_id: opt_str(*session_id),
                started_at: *started_at,
            },
            AppEvent::RunCompleted { run_id, result } => EventModel::RunCompleted {
                run_id: *run_id,
                result: result.model(),
            },
            AppEvent::StreamDelta { run_id, text } => EventModel::StreamDelta {
                run_id: *run_id,
                text: text@,
            },
            AppEvent::StreamBlockDone { run_id, item } => EventModel::StreamBlockDone {
                run_id: *run_id,
                item: item.model(),
            },
            AppEvent::ParseError { run_id, line_no, error } => EventModel::ParseError {
                run_id: *run_id,
                line_no: *line_no,
                error: error@,
            },
            AppEvent::Key(k) => EventModel::Key(*k),
            AppEvent::Resize(w, h) => EventModel::Resize(*w, *h),
            AppEvent::Tick => EventModel::Tick,
        }
    }
}

#[derive(Clone, Copy, Debug, PartialEq, Eq, Structural)]
pub enum ViewMode {
    Transcript,
    Tools,
    Raw,
}

#[derive(Clone, Copy, Debug, PartialEq, Eq, Structural)]
pub enum FocusPane {
    RunList,
    MainViewer,
}

/// The view mode named on the command line.
pub open spec fn view_mode_named(s: Seq<char>) -> Option<ViewMode> {
    if s == "transcript"@ {
        Some(ViewMode::Transcript)
    } else if s == "tools"@ {
        Some(ViewMode::Tools)
    } else if s == "raw"@ {
        Some(ViewMode::Raw)
    } else {
        None
    }
}

/// Reads a view mode name: `transcript`, `tools` or `raw`.
pub fn parse_view_mode(s: &str) -> (r: Result<ViewMode, String>)
    ensures
        match r {
            Ok(m) => view_mode_named(s@) == Some(m),
            Err(e) => view_mode_named(s@) is None && e@ == "invalid view mode: "@ + s@,
        },
{
    if crate::json::str_eq(s, "transcript") {
        Ok(ViewMode::Transcript)
    } else if crate::json::str_eq(s, "tools") {
        Ok(ViewMode::Tools)
    } else if crate::json::str_eq(s, "raw") {
        Ok(ViewMode::Raw)
    } else {
        let mut e = "invalid view mode: ".to_owned();
        crate::json::append_str(&mut e, s);
        Err(e)
    }
}

} // verus!
