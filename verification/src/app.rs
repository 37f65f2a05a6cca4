//! The viewer's state and how events and keys change it.
use std::collections::HashSet;

use crate::events::{AppEvent, EventModel, FocusPane, KeyCode, KeyInput, ViewMode};
use crate::json::append_str;
use crate::run::{
    fresh_run, items_model, merged, now, runs_model, sat_add, strs_model, ItemModel, Run, RunModel,
    RunStatus, Timestamp, TranscriptItem,
};
use crate::text::{contains, decimal, lowercase, push_decimal, str_contains, to_lowercase};
use crate::ui::search::{SearchModel, SearchState};
use vstd::prelude::*;

verus! {

/// How much detail the transcript shows under tool calls, results and thinking.
#[derive(Clone, Copy, Debug, PartialEq, Eq, Structural)]
pub enum ExpandMode {
    Off,
    Edits,
    All,
}

pub struct App {
    pub runs: Vec<Run>,
    pub selected_run: Option<usize>,
    pub view_mode: ViewMode,
    pub focus: FocusPane,
    pub scroll_offset: usize,
    pub auto_follow: bool,
    pub search: SearchState,
    pub show_help: bool,
    pub should_quit: bool,
    pub dirty: bool,
    pub expanded_tools: HashSet<usize>,
    pub expand_mode: ExpandMode,
}

pub struct AppModel {
    pub runs: Seq<RunModel>,
    pub selected_run: Option<usize>,
    pub view_mode: ViewMode,
    pub focus: FocusPane,
    pub scroll_offset: usize,
    pub auto_follow: bool,
    pub search: SearchModel,
    pub show_help: bool,
    pub should_quit: bool,
    pub dirty: bool,
    pub expanded_tools: Set<usize>,
    pub expand_mode: ExpandMode,
}

impl App {
    pub open spec fn model(&self) -> AppModel {
        AppModel {
            runs: runs_model(self.runs@),
            selected_run: self.selected_run,
            view_mode: self.view_mode,
            focus: self.focus,
            scroll_offset: self.scroll_offset,
            auto_follow: self.auto_follow,
            search: self.search.model(),
            show_help: self.show_help,
            should_quit: self.should_quit,
            dirty: self.dirty,
            expanded_tools: self.expanded_tools@,
            expand_mode: self.expand_mode,
        }
    }

    /// The current match, when there are matches, is one of them or just past
    /// the last (where stepping to the next or previous match still lands on one).
    pub open spec fn wf(&self) -> bool {
        search_wf(self.model().search)
    }
}

pub open spec fn search_wf(s: SearchModel) -> bool {
    s.matches.len() == 0 || s.current_match <= s.matches.len()
}

// ---------------------------------------------------------------------------
// Events
// ---------------------------------------------------------------------------

pub open spec fn is_partial_text(item: ItemModel) -> bool {
    item matches ItemModel::AssistantText { is_partial: true, .. }
}

/// A run after a batch of new lines.
pub open spec fn run_updated(
    r: RunModel,
    new_items: Seq<ItemModel>,
    raw_lines: Seq<Seq<char>>,
    delta: crate::run::StatsModel,
    session_id: Option<Seq<char>>,
    started_at: Option<Timestamp>,
    now: Timestamp,
) -> RunModel {
    RunModel {
        items: r.items + new_items,
        raw_lines: r.raw_lines + raw_lines,
        stats: merged(r.stats, delta),
        status: RunStatus::Running,
        last_modified: Some(now),
        session_id: if session_id is Some && r.session_id is None {
            session_id
        } else {
            r.session_id
        },
        started_at: if started_at is Some && r.started_at is None {
            started_at
        } else {
            r.started_at
        },
        ..r
    }
}

/// A run after its session reported its result.
pub open spec fn run_completed(
    r: RunModel,
    result: crate::run::SessionResultModel,
    now: Timestamp,
) -> RunModel {
    RunModel {
        status: if result.is_error {
            RunStatus::Failed
        } else {
            RunStatus::Completed
        },
        ended_at: Some(now),
        stats: crate::run::StatsModel {
            cost_usd: Some(result.total_cost_usd),
            num_turns: result.num_turns,
            ..r.stats
        },
        result: Some(result),
        ..r
    }
}

/// The message of a parse error item.
pub open spec fn parse_error_message(line_no: usize, error: Seq<char>) -> Seq<char> {
    "Line "@ + decimal(line_no as nat) + ": "@ + error
}

/// The state after an event, at instant `now`.
pub open spec fn event_step(a: AppModel, e: EventModel, now: Timestamp) -> AppModel {
    match e {
        EventModel::RunDiscovered { run_id, path } => AppModel {
            runs: a.runs.push(fresh_run(run_id, path)),
            selected_run: if a.auto_follow {
                Some(run_id)
            } else {
                a.selected_run
            },
            dirty: true,
            ..a
        },
        EventModel::RunUpdated {
            run_id,
            new_items,
            raw_lines,
            stats_delta,
            session_id,
            started_at,
        } => if run_id < a.runs.len() {
            AppModel {
                runs: a.runs.update(
                    run_id as int,
                    run_updated(
                        a.runs[run_id as int],
                        new_items,
                        raw_lines,
                        stats_delta,
                        session_id,
                        started_at,
                        now,
                    ),
                ),
                dirty: true,
                ..a
            }
        } else {
            AppModel { dirty: true, ..a }
        },
        EventModel::RunCompleted { run_id, result } => if run_id < a.runs.len() {
            AppModel {
                runs: a.runs.update(run_id as int, run_completed(a.runs[run_id as int], result, now)),
                dirty: true,
                ..a
            }
        } else {
            AppModel { dirty: true, ..a }
        },
        EventModel::StreamDelta { run_id, text } => replace_partial(
            a,
            run_id,
            ItemModel::AssistantText { text, is_partial: true },
        ),
        EventModel::StreamBlockDone { run_id, item } => replace_partial(a, run_id, item),
        EventModel::ParseError { run_id, line_no, error } => if run_id < a.runs.len() {
            let r = a.runs[run_id as int];
            AppModel {
                runs: a.runs.update(
                    run_id as int,
                    RunModel {
                        stats: crate::run::StatsModel {
                            parse_errors: sat_add(r.stats.parse_errors, 1),
                            ..r.stats
                        },
                        items: r.items.push(
                            ItemModel::Error { message: parse_error_message(line_no, error) },
                        ),
                        ..r
                    },
                ),
                dirty: true,
                ..a
            }
        } else {
            AppModel { dirty: true, ..a }
        },
        _ => AppModel { dirty: true, ..a },
    }
}

/// A streamed item takes the place of a trailing partial text (leaving `dirty` as it
/// was), or is appended.
pub open spec fn replace_partial(a: AppModel, run_id: usize, item: ItemModel) -> AppModel {
    if run_id < a.runs.len() {
        let r = a.runs[run_id as int];
        if r.items.len() > 0 && is_partial_text(r.items.last()) {
            AppModel {
                runs: a.runs.update(
                    run_id as int,
                    RunModel { items: r.items.update(r.items.len() - 1, item), ..r },
                ),
                ..a
            }
        } else {
            AppModel {
                runs: a.runs.update(run_id as int, RunModel { items: r.items.push(item), ..r }),
                dirty: true,
                ..a
            }
        }
    } else {
        AppModel { dirty: true, ..a }
    }
}

// ---------------------------------------------------------------------------
// Keys
// ---------------------------------------------------------------------------

/// The items of the selected run, if a run is selected.
pub open spec fn selected_items(a: AppModel) -> Option<Seq<ItemModel>> {
    match a.selected_run {
        Some(i) => if i < a.runs.len() {
            Some(a.runs[i as int].items)
        } else {
            None
        },
        None => None,
    }
}

/// Whether an item matches a lower-cased query.
pub open spec fn item_hit(item: ItemModel, q: Seq<char>) -> bool {
    match item {
        ItemModel::AssistantText { text, .. } => contains(lowercase(text), q),
        ItemModel::UserMessage { text } => contains(lowercase(text), q),
        ItemModel::Thinking { text } => contains(lowercase(text), q),
        ItemModel::ToolUse { name, summary, .. } => contains(lowercase(name), q) || contains(
            lowercase(summary),
            q,
        ),
        ItemModel::ToolResult { summary, .. } => contains(lowercase(summary), q),
        ItemModel::Error { message } => contains(lowercase(message), q),
        ItemModel::SystemEvent { label, detail } => contains(lowercase(label), q) || contains(
            lowercase(detail),
            q,
        ),
        ItemModel::RunResult { stop_reason, result_text, .. } => opt_text_hit(stop_reason, q)
            || opt_text_hit(result_text, q),
        _ => false,
    }
}

/// Whether an optional text, read as empty when absent, contains `q` once lower-cased.
pub open spec fn opt_text_hit(o: Option<Seq<char>>, q: Seq<char>) -> bool {
    contains(lowercase(crate::json::or_default(o, Seq::empty())), q)
}

/// The indices of the items that match `q`, in order.
pub open spec fn search_hits(items: Seq<ItemModel>, q: Seq<char>) -> Seq<usize>
    decreases items.len(),
{
    if items.len() == 0 {
        Seq::empty()
    } else {
        let rest = search_hits(items.drop_last(), q);
        if item_hit(items.last(), q) {
            rest.push((items.len() - 1) as usize)
        } else {
            rest
        }
    }
}

/// The search after its query changed: matches found again from the first.
pub open spec fn recomputed(a: AppModel) -> AppModel {
    if a.search.query.len() == 0 {
        AppModel { search: SearchModel { matches: Seq::empty(), ..a.search }, ..a }
    } else {
        let q = lowercase(a.search.query);
        AppModel {
            search: SearchModel {
                matches: match selected_items(a) {
                    Some(items) => search_hits(items, q),
                    None => Seq::empty(),
                },
                current_match: 0,
                ..a.search
            },
            ..a
        }
    }
}

pub open spec fn with_query(a: AppModel, q: Seq<char>) -> AppModel {
    AppModel { search: SearchModel { query: q, ..a.search }, ..a }
}

/// A key while the query is being typed.
pub open spec fn search_key(a: AppModel, k: KeyInput) -> AppModel {
    match k.code {
        KeyCode::Esc => AppModel {
            search: SearchModel {
                is_active: false,
                highlights_visible: false,
                query: Seq::empty(),
                matches: Seq::empty(),
                ..a.search
            },
            ..a
        },
        KeyCode::Enter => AppModel {
            search: SearchModel { is_active: false, highlights_visible: true, ..a.search },
            ..a
        },
        KeyCode::Backspace => recomputed(
            with_query(
                a,
                if a.search.query.len() > 0 {
                    a.search.query.drop_last()
                } else {
                    a.search.query
                },
            ),
        ),
        KeyCode::Char(c) => recomputed(with_query(a, a.search.query.push(c))),
        _ => a,
    }
}

pub open spec fn select_next(a: AppModel) -> AppModel {
    if a.runs.len() == 0 {
        a
    } else {
        let current = match a.selected_run {
            Some(i) => i,
            None => 0,
        };
        let next = sat_add(current, 1);
        AppModel {
            selected_run: Some(
                if next < a.runs.len() {
                    next
                } else {
                    (a.runs.len() - 1) as usize
                },
            ),
            scroll_offset: 0,
            expanded_tools: Set::empty(),
            ..a
        }
    }
}

pub open spec fn select_prev(a: AppModel) -> AppModel {
    if a.runs.len() == 0 {
        a
    } else {
        let current = match a.selected_run {
            Some(i) => i,
            None => 0,
        };
        AppModel {
            selected_run: Some(
                if current > 0 {
                    (current - 1) as usize
                } else {
                    0
                },
            ),
            scroll_offset: 0,
            expanded_tools: Set::empty(),
            ..a
        }
    }
}

/// The index of the last running run, if any.
pub open spec fn last_running(runs: Seq<RunModel>) -> Option<usize>
    decreases runs.len(),
{
    if runs.len() == 0 {
        None
    } else if runs.last().status == RunStatus::Running {
        Some((runs.len() - 1) as usize)
    } else {
        last_running(runs.drop_last())
    }
}

pub open spec fn jump_to_active(a: AppModel) -> AppModel {
    match last_running(a.runs) {
        Some(i) => AppModel { selected_run: Some(i), scroll_offset: 0, ..a },
        None => if a.runs.len() > 0 {
            AppModel { selected_run: Some((a.runs.len() - 1) as usize), ..a }
        } else {
            a
        },
    }
}

pub open spec fn to_bottom(a: AppModel) -> AppModel {
    match selected_items(a) {
        Some(items) => AppModel {
            scroll_offset: if items.len() > 0 {
                (items.len() - 1) as usize
            } else {
                0
            },
            ..a
        },
        None => a,
    }
}

pub open spec fn toggle_tool(a: AppModel) -> AppModel {
    let is_tool = match selected_items(a) {
        Some(items) => a.scroll_offset < items.len() && items[a.scroll_offset as int] is ToolUse,
        None => false,
    };
    if is_tool {
        AppModel {
            expanded_tools: if a.expanded_tools.contains(a.scroll_offset) {
                a.expanded_tools.remove(a.scroll_offset)
            } else {
                a.expanded_tools.insert(a.scroll_offset)
            },
            ..a
        }
    } else {
        a
    }
}

pub open spec fn search_next(a: AppModel) -> AppModel {
    if a.search.matches.len() == 0 {
        a
    } else {
        let c = ((a.search.current_match + 1) % (a.search.matches.len() as int)) as usize;
        AppModel {
            search: SearchModel { current_match: c, ..a.search },
            scroll_offset: a.search.matches[c as int],
            auto_follow: false,
            ..a
        }
    }
}

pub open spec fn search_prev(a: AppModel) -> AppModel {
    if a.search.matches.len() == 0 {
        a
    } else {
        let c = if a.search.current_match == 0 {
            (a.search.matches.len() - 1) as usize
        } else {
            (a.search.current_match - 1) as usize
        };
        AppModel {
            search: SearchModel { current_match: c, ..a.search },
            scroll_offset: a.search.matches[c as int],
            auto_follow: false,
            ..a
        }
    }
}

pub open spec fn next_expand_mode(m: ExpandMode) -> ExpandMode {
    match m {
        ExpandMode::Off => ExpandMode::Edits,
        ExpandMode::Edits => ExpandMode::All,
        ExpandMode::All => ExpandMode::Off,
    }
}

pub open spec fn scrolled(a: AppModel, offset: usize) -> AppModel {
    AppModel { scroll_offset: offset, auto_follow: false, ..a }
}

pub open spec fn sat_sub(a: usize, b: usize) -> usize {
    if a >= b {
        (a - b) as usize
    } else {
        0
    }
}

/// A key handled by the focused pane.
pub open spec fn pane_key(a: AppModel, k: KeyInput) -> AppModel {
    let code = k.code;
    match a.focus {
        FocusPane::RunList => if code == KeyCode::Char('j') || code == KeyCode::Down {
            select_next(a)
        } else if code == KeyCode::Char('k') || code == KeyCode::Up {
            select_prev(a)
        } else if code == KeyCode::Char('g') {
            if a.runs.len() > 0 {
                AppModel { selected_run: Some(0), ..a }
            } else {
                a
            }
        } else if code == KeyCode::Char('G') {
            AppModel {
                selected_run: if a.runs.len() > 0 {
                    Some((a.runs.len() - 1) as usize)
                } else {
                    None
                },
                ..a
            }
        } else if code == KeyCode::Char('f') {
            AppModel { auto_follow: true, ..jump_to_active(a) }
        } else {
            a
        },
        FocusPane::MainViewer => if code == KeyCode::Char('j') || code == KeyCode::Down {
            scrolled(a, sat_add(a.scroll_offset, 1))
        } else if code == KeyCode::Char('k') || code == KeyCode::Up {
            scrolled(a, sat_sub(a.scroll_offset, 1))
        } else if code == KeyCode::PageDown {
            scrolled(a, sat_add(a.scroll_offset, 20))
        } else if code == KeyCode::PageUp {
            scrolled(a, sat_sub(a.scroll_offset, 20))
        } else if code == KeyCode::Char('g') || code == KeyCode::Home {
            scrolled(a, 0)
        } else if code == KeyCode::Char('G') || code == KeyCode::End || code == KeyCode::Char(
            'f',
        ) {
            AppModel { auto_follow: true, ..to_bottom(a) }
        } else if code == KeyCode::Enter {
            toggle_tool(a)
        } else if code == KeyCode::Char('n') && a.search.highlights_visible {
            search_next(a)
        } else if code == KeyCode::Char('N') && a.search.highlights_visible {
            search_prev(a)
        } else if code == KeyCode::Char('e') {
            AppModel { expand_mode: next_expand_mode(a.expand_mode), ..a }
        } else {
            a
        },
    }
}

/// The state after a key press.
pub open spec fn key_step(a: AppModel, k: KeyInput) -> AppModel {
    if a.show_help {
        AppModel { show_help: false, ..a }
    } else if a.search.is_active {
        search_key(a, k)
    } else if k.code == KeyCode::Char('q') || (k.code == KeyCode::Char('c') && k.ctrl) {
        AppModel { should_quit: true, ..a }
    } else if k.code == KeyCode::Tab {
        AppModel {
            focus: match a.focus {
                FocusPane::RunList => FocusPane::MainViewer,
                FocusPane::MainViewer => FocusPane::RunList,
            },
            ..a
        }
    } else if k.code == KeyCode::Char('1') {
        AppModel { view_mode: ViewMode::Transcript, ..a }
    } else if k.code == KeyCode::Char('2') {
        AppModel { view_mode: ViewMode::Tools, ..a }
    } else if k.code == KeyCode::Char('3') {
        AppModel { view_mode: ViewMode::Raw, ..a }
    } else if k.code == KeyCode::Char('/') {
        AppModel {
            search: SearchModel { is_active: true, query: Seq::empty(), ..a.search },
            ..a
        }
    } else if k.code == KeyCode::Char('?') {
        AppModel { show_help: true, ..a }
    } else {
        pane_key(a, k)
    }
}

/// Whole seconds from `earlier` to `later`; zero when `later` is not after `earlier`.
pub open spec fn whole_secs_between(earlier: Timestamp, later: Timestamp) -> int {
    let ns = (later.secs - earlier.secs) * 1_000_000_000 + later.nanos - earlier.nanos;
    if ns <= 0 {
        0
    } else {
        ns / 1_000_000_000
    }
}

/// A running run that has not changed for more than a minute.
pub open spec fn is_stale(r: RunModel, now: Timestamp) -> bool {
    r.status == RunStatus::Running && match r.last_modified {
        Some(t) => whole_secs_between(t, now) > 60,
        None => false,
    }
}

// ---------------------------------------------------------------------------
// Implementation
// ---------------------------------------------------------------------------

proof fn lemma_items_concat(a: Seq<TranscriptItem>, b: Seq<TranscriptItem>)
    ensures
        items_model(a + b) == items_model(a) + items_model(b),
{
    assert(items_model(a + b) =~= items_model(a) + items_model(b));
}

impl App {
    /// A viewer with no runs, following new ones, focused on the main view.
    pub fn new(view_mode: ViewMode) -> (r: App)
        ensures
            r.model() == (AppModel {
                runs: Seq::empty(),
                selected_run: None,
                view_mode,
                focus: FocusPane::MainViewer,
                scroll_offset: 0,
                auto_follow: true,
                search: SearchModel {
                    query: Seq::empty(),
                    is_active: false,
                    matches: Seq::empty(),
                    current_match: 0,
                    highlights_visible: false,
                },
                show_help: false,
                should_quit: false,
                dirty: true,
                expanded_tools: Set::empty(),
                expand_mode: ExpandMode::Off,
            }),
            r.wf(),
    {
        let r = App {
            runs: Vec::new(),
            selected_run: None,
            view_mode,
            focus: FocusPane::MainViewer,
            scroll_offset: 0,
            auto_follow: true,
            search: SearchState::new(),
            show_help: false,
            should_quit: false,
            dirty: true,
            expanded_tools: HashSet::new(),
            expand_mode: ExpandMode::Off,
        };
        assert(runs_model(r.runs@) =~= Seq::<RunModel>::empty());
        r
    }

    fn update_run(
        &mut self,
        run_id: usize,
        new_items: Vec<TranscriptItem>,
        raw_lines: Vec<String>,
        stats_delta: crate::run::RunStats,
        session_id: Option<String>,
        started_at: Option<Timestamp>,
        now: Timestamp,
    )
        requires
            run_id < old(self).runs.len(),
        ensures
            final(self).model() == (AppModel {
                runs: old(self).model().runs.update(
                    run_id as int,
                    run_updated(
                        old(self).model().runs[run_id as int],
                        items_model(new_items@),
                        strs_model(raw_lines@),
                        stats_delta.model(),
                        crate::run::opt_str(session_id),
                        started_at,
                        now,
                    ),
                ),
                ..old(self).model()
            }),
    {
        let ghost a = self.model();
        let mut new_items = new_items;
        let mut raw_lines = raw_lines;
        let ghost old_run = self.runs@[run_id as int];
        let ghost ni = new_items@;
        let ghost rl = raw_lines@;
        let run = &mut self.runs[run_id];
        run.items.append(&mut new_items);
        run.raw_lines.append(&mut raw_lines);
        run.stats.merge(&stats_delta);
        run.status = RunStatus::Running;
        run.last_modified = Some(now);
        if session_id.is_some() && run.session_id.is_none() {
            run.session_id = session_id;
        }
        if started_at.is_some() && run.started_at.is_none() {
            run.started_at = started_at;
        }
        proof {
            lemma_items_concat(old_run.items@, ni);
            assert(strs_model(old_run.raw_lines@ + rl) =~= strs_model(old_run.raw_lines@)
                + strs_model(rl));
        }
        assert(runs_model(self.runs@) =~= a.runs.update(
            run_id as int,
            run_updated(
                a.runs[run_id as int],
                items_model(ni),
                strs_model(rl),
                stats_delta.model(),
                crate::run::opt_str(session_id),
                started_at,
                now,
            ),
        ));
    }

    fn complete_run(&mut self, run_id: usize, result: crate::run::SessionResult, now: Timestamp)
        requires
            run_id < old(self).runs.len(),
        ensures
            final(self).model() == (AppModel {
                runs: old(self).model().runs.update(
                    run_id as int,
                    run_completed(old(self).model().runs[run_id as int], result.model(), now),
                ),
                ..old(self).model()
            }),
    {
        let ghost a = self.model();
        let run = &mut self.runs[run_id];
        run.status = if result.is_error {
            RunStatus::Failed
        } else {
            RunStatus::Completed
        };
        run.ended_at = Some(now);
        run.stats.cost_usd = Some(result.total_cost_usd.duplicate());
        run.stats.num_turns = result.num_turns;
        let ghost rm = result.model();
        run.result = Some(result);
        assert(runs_model(self.runs@) =~= a.runs.update(
            run_id as int,
            run_completed(a.runs[run_id as int], rm, now),
        ));
    }

    fn record_parse_error(&mut self, run_id: usize, line_no: usize, error: String)
        requires
            run_id < old(self).runs.len(),
        ensures
            final(self).model() == (AppModel {
                runs: old(self).model().runs.update(
                    run_id as int,
                    RunModel {
                        stats: crate::run::StatsModel {
                            parse_errors: sat_add(
                                old(self).model().runs[run_id as int].stats.parse_errors,
                                1,
                            ),
                            ..old(self).model().runs[run_id as int].stats
                        },
                        items: old(self).model().runs[run_id as int].items.push(
                            ItemModel::Error { message: parse_error_message(line_no, error@) },
                        ),
                        ..old(self).model().runs[run_id as int]
                    },
                ),
                ..old(self).model()
            }),
    {
        let ghost a = self.model();
        let mut message = "Line ".to_owned();
        push_decimal(&mut message, line_no as u64);
        append_str(&mut message, ": ");
        append_str(&mut message, error.as_str());
        let ghost m = message@;
        proof {
            reveal_strlit("Line ");
            reveal_strlit(": ");
            assert(m =~= parse_error_message(line_no, error@));
        }
        let ghost old_run = self.runs@[run_id as int];
        let run = &mut self.runs[run_id];
        run.stats.parse_errors = run.stats.parse_errors.saturating_add(1);
        run.items.push(TranscriptItem::Error { message });
        assert(items_model(run.items@) =~= items_model(old_run.items@).push(
            ItemModel::Error { message: m },
        ));
        assert(runs_model(self.runs@) =~= a.runs.update(
            run_id as int,
            RunModel {
                stats: crate::run::StatsModel {
                    parse_errors: sat_add(a.runs[run_id as int].stats.parse_errors, 1),
                    ..a.runs[run_id as int].stats
                },
                items: a.runs[run_id as int].items.push(ItemModel::Error { message: m }),
                ..a.runs[run_id as int]
            },
        ));
    }

    /// Applies an event, with `now` as the current instant.
    pub fn apply_event(&mut self, event: AppEvent, now: Timestamp)
        ensures
            final(self).model() == event_step(old(self).model(), event.model(), now),
    {
        let ghost a = self.model();
        let ghost em = event.model();
        match event {
            AppEvent::RunDiscovered { run_id, path } => {
                let ghost p = path@;
                let run = Run::new(run_id, path);
                self.runs.push(run);
                assert(runs_model(self.runs@) =~= a.runs.push(fresh_run(run_id, p)));
                if self.auto_follow {
                    self.selected_run = Some(run_id);
                }
            },
            AppEvent::RunUpdated {
                run_id,
                new_items,
                raw_lines,
                stats_delta,
                session_id,
                started_at,
            } => {
                if run_id < self.runs.len() {
                    self.update_run(
                        run_id,
                        new_items,
                        raw_lines,
                        stats_delta,
                        session_id,
                        started_at,
                        now,
                    );
                }
            },
            AppEvent::RunCompleted { run_id, result } => {
                if run_id < self.runs.len() {
                    self.complete_run(run_id, result, now);
                }
            },
            AppEvent::StreamDelta { run_id, text } => {
                let item = TranscriptItem::AssistantText { text, is_partial: true };
                if self.replace_partial(run_id, item) {
                    return;
                }
            },
            AppEvent::StreamBlockDone { run_id, item } => {
                if self.replace_partial(run_id, item) {
                    return;
                }
            },
            AppEvent::ParseError { run_id, line_no, error } => {
                if run_id < self.runs.len() {
                    self.record_parse_error(run_id, line_no, error);
                }
            },
            AppEvent::Key(_) => {},
            AppEvent::Resize(_, _) => {},
            AppEvent::Tick => {},
        }
        self.dirty = true;
    }

    /// Puts `item` in place of a trailing partial text of run `run_id` and returns true,
    /// or appends it and returns false.
    fn replace_partial(&mut self, run_id: usize, item: TranscriptItem) -> (replaced: bool)
        ensures
            replace_partial(old(self).model(), run_id, item.model()) == (if replaced {
                final(self).model()
            } else {
                AppModel { dirty: true, ..final(self).model() }
            }),
            final(self).dirty == old(self).dirty,
    {
        let ghost a = self.model();
        if run_id >= self.runs.len() {
            return false;
        }
        let ghost old_items = self.runs@[run_id as int].items@;
        let ghost im = item.model();
        let run = &mut self.runs[run_id];
        let n = run.items.len();
        let last_partial = n > 0 && match &run.items[n - 1] {
            TranscriptItem::AssistantText { is_partial, .. } => *is_partial,
            _ => false,
        };
        if last_partial {
            run.items.set(n - 1, item);
            assert(items_model(run.items@) =~= items_model(old_items).update(n - 1, im));
            assert(runs_model(self.runs@) =~= replace_partial(a, run_id, im).runs);
            true
        } else {
            run.items.push(item);
            assert(items_model(run.items@) =~= items_model(old_items).push(im));
            assert(runs_model(self.runs@) =~= replace_partial(a, run_id, im).runs);
            false
        }
    }

    /// Applies an event at the current instant.
    pub fn update_state(&mut self, event: AppEvent)
        ensures
            exists|t: Timestamp| final(self).model() == #[trigger] event_step(old(self).model(), event.model(), t),
    {
        let t = now();
        self.apply_event(event, t);
    }
}

fn text_hit(text: &String, q: &str) -> (r: bool)
    ensures
        r == contains(lowercase(text@), q@),
{
    let lower = to_lowercase(text.as_str());
    str_contains(lower.as_str(), q)
}

/// Whether `item` matches the lower-cased query `q`.
pub fn item_matches(item: &TranscriptItem, q: &str) -> (r: bool)
    ensures
        r == item_hit(item.model(), q@),
{
    match item {
        TranscriptItem::AssistantText { text, .. } => text_hit(text, q),
        TranscriptItem::UserMessage { text } => text_hit(text, q),
        TranscriptItem::Thinking { text } => text_hit(text, q),
        TranscriptItem::ToolUse { name, summary, .. } => text_hit(name, q) || text_hit(summary, q),
        TranscriptItem::ToolResult { summary, .. } => text_hit(summary, q),
        TranscriptItem::Error { message } => text_hit(message, q),
        TranscriptItem::SystemEvent { label, detail } => text_hit(label, q) || text_hit(detail, q),
        TranscriptItem::RunResult { stop_reason, result_text, .. } => opt_hit(stop_reason, q)
            || opt_hit(result_text, q),
        _ => false,
    }
}

fn opt_hit(o: &Option<String>, q: &str) -> (r: bool)
    ensures
        r == opt_text_hit(crate::run::opt_str(*o), q@),
{
    match o {
        Some(t) => text_hit(t, q),
        None => {
            let e = String::new();
            text_hit(&e, q)
        },
    }
}

/// The indices of the items that match the lower-cased query `q`.
pub fn find_matches(items: &Vec<TranscriptItem>, q: &str) -> (r: Vec<usize>)
    ensures
        r@ == search_hits(items_model(items@), q@),
{
    let ghost im = items_model(items@);
    let mut out: Vec<usize> = Vec::new();
    let mut i: usize = 0;
    assert(im.take(0) =~= Seq::<ItemModel>::empty());
    while i < items.len()
        invariant
            0 <= i <= items.len(),
            im == items_model(items@),
            out@ == search_hits(im.take(i as int), q@),
        decreases items.len() - i,
    {
        proof {
            let t = im.take(i + 1);
            assert(t.drop_last() =~= im.take(i as int));
            assert(t.last() == items@[i as int].model());
        }
        if item_matches(&items[i], q) {
            out.push(i);
        }
        i = i + 1;
    }
    assert(im.take(items.len() as int) =~= im);
    out
}

impl App {
    /// The selected run, when the selection names one.
    pub fn selected_run(&self) -> (r: Option<&Run>)
        ensures
            match r {
                Some(run) => self.selected_run matches Some(i) && i < self.runs.len() && *run
                    == self.runs@[i as int],
                None => !(self.selected_run matches Some(i) && i < self.runs.len()),
            },
    {
        match self.selected_run {
            Some(i) => if i < self.runs.len() {
                Some(&self.runs[i])
            } else {
                None
            },
            None => None,
        }
    }

    fn selected_items_len(&self) -> (r: Option<usize>)
        ensures
            match r {
                Some(n) => selected_items(self.model()) matches Some(items) && items.len() == n,
                None => selected_items(self.model()) is None,
            },
    {
        match self.selected_run() {
            Some(run) => Some(run.items.len()),
            None => None,
        }
    }

    fn select_next_run(&mut self)
        ensures
            final(self).model() == select_next(old(self).model()),
    {
        if self.runs.len() == 0 {
            return;
        }
        let current = match self.selected_run {
            Some(i) => i,
            None => 0,
        };
        let next = current.saturating_add(1);
        let last = self.runs.len() - 1;
        self.selected_run = Some(if next < self.runs.len() { next } else { last });
        self.scroll_offset = 0;
        self.expanded_tools.clear();
    }

    fn select_prev_run(&mut self)
        ensures
            final(self).model() == select_prev(old(self).model()),
    {
        if self.runs.len() == 0 {
            return;
        }
        let current = match self.selected_run {
            Some(i) => i,
            None => 0,
        };
        self.selected_run = Some(current.saturating_sub(1));
        self.scroll_offset = 0;
        self.expanded_tools.clear();
    }

    fn jump_to_active_run(&mut self)
        ensures
            final(self).model() == jump_to_active(old(self).model()),
    {
        let ghost rm = runs_model(self.runs@);
        let mut i = self.runs.len();
        assert(rm.take(i as int) =~= rm);
        while i > 0
            invariant
                0 <= i <= self.runs.len(),
                rm == runs_model(self.runs@),
                self.model() == old(self).model(),
                last_running(rm) == last_running(rm.take(i as int)),
            decreases i,
        {
            proof {
                let t = rm.take(i as int);
                assert(t.drop_last() =~= rm.take(i - 1));
                assert(t.last() == self.runs@[i - 1].model());
            }
            if self.runs[i - 1].status == RunStatus::Running {
                self.selected_run = Some(i - 1);
                self.scroll_offset = 0;
                return;
            }
            i = i - 1;
        }
        assert(rm.take(0) =~= Seq::<RunModel>::empty());
        if self.runs.len() > 0 {
            self.selected_run = Some(self.runs.len() - 1);
        }
    }

    fn scroll_to_bottom(&mut self)
        ensures
            final(self).model() == to_bottom(old(self).model()),
    {
        match self.selected_items_len() {
            Some(n) => {
                self.scroll_offset = n.saturating_sub(1);
            },
            None => {},
        }
    }

    /// Expands or collapses the tool call under the cursor (Enter).
    pub fn toggle_tool_expansion(&mut self)
        ensures
            final(self).model() == toggle_tool(old(self).model()),
    {
        let is_tool = match self.selected_run() {
            Some(run) => if self.scroll_offset < run.items.len() {
                match &run.items[self.scroll_offset] {
                    TranscriptItem::ToolUse { .. } => true,
                    _ => false,
                }
            } else {
                false
            },
            None => false,
        };
        if is_tool {
            let off = self.scroll_offset;
            if self.expanded_tools.contains(&off) {
                self.expanded_tools.remove(&off);
            } else {
                self.expanded_tools.insert(off);
            }
        }
    }

    fn recompute_search(&mut self)
        ensures
            final(self).model() == recomputed(old(self).model()),
            search_wf(final(self).model().search),
    {
        self.search.matches = Vec::new();
        if self.search.query.as_str().is_empty() {
            return;
        }
        let q = to_lowercase(self.search.query.as_str());
        let found = match self.selected_run() {
            Some(run) => find_matches(&run.items, q.as_str()),
            None => Vec::new(),
        };
        self.search.matches = found;
        self.search.current_match = 0;
    }

    /// Moves to the next search match, wrapping around (`n`).
    pub fn search_next(&mut self)
        requires
            search_wf(old(self).model().search),
        ensures
            final(self).model() == search_next(old(self).model()),
            search_wf(final(self).model().search),
    {
        if self.search.matches.len() == 0 {
            return;
        }
        let n = self.search.matches.len();
        let c = self.search.current_match;
        proof {
            let ni: int = n as int;
            let ci: int = c as int;
            assert(ci + 1 < ni ==> (ci + 1) % ni == ci + 1) by (nonlinear_arith)
                requires
                    ni > 0,
                    ci >= 0,
            ;
            assert(ci + 1 == ni ==> (ci + 1) % ni == 0) by (nonlinear_arith)
                requires
                    ni > 0,
            ;
            assert(ci == ni ==> (ci + 1) % ni == 1int % ni) by (nonlinear_arith)
                requires
                    ni > 0,
            ;
            assert(0 <= (ci + 1) % ni < ni) by (nonlinear_arith)
                requires
                    ni > 0,
            ;
        }
        self.search.current_match = if c < n - 1 {
            c + 1
        } else if c == n - 1 {
            0
        } else {
            1 % n
        };
        self.scroll_offset = self.search.matches[self.search.current_match];
        self.auto_follow = false;
    }

    /// Moves to the previous search match, wrapping around (`N`).
    pub fn search_prev(&mut self)
        requires
            search_wf(old(self).model().search),
        ensures
            final(self).model() == search_prev(old(self).model()),
            search_wf(final(self).model().search),
    {
        if self.search.matches.len() == 0 {
            return;
        }
        if self.search.current_match == 0 {
            self.search.current_match = self.search.matches.len() - 1;
        } else {
            self.search.current_match = self.search.current_match - 1;
        }
        self.scroll_offset = self.search.matches[self.search.current_match];
        self.auto_follow = false;
    }

    fn handle_search_key(&mut self, key: KeyInput)
        requires
            search_wf(old(self).model().search),
        ensures
            final(self).model() == search_key(old(self).model(), key),
            search_wf(final(self).model().search),
    {
        match key.code {
            KeyCode::Esc => {
                self.search.is_active = false;
                self.search.highlights_visible = false;
                self.search.query = String::new();
                self.search.matches = Vec::new();
            },
            KeyCode::Enter => {
                self.search.is_active = false;
                self.search.highlights_visible = true;
            },
            KeyCode::Backspace => {
                crate::text::pop_char(&mut self.search.query);
                self.recompute_search();
            },
            KeyCode::Char(c) => {
                crate::text::push_char(&mut self.search.query, c);
                self.recompute_search();
            },
            _ => {},
        }
    }

    fn handle_pane_key(&mut self, key: KeyInput)
        requires
            search_wf(old(self).model().search),
        ensures
            final(self).model() == pane_key(old(self).model(), key),
            search_wf(final(self).model().search),
    {
        let code = key.code;
        match self.focus {
            FocusPane::RunList => {
                if code == KeyCode::Char('j') || code == KeyCode::Down {
                    self.select_next_run();
                } else if code == KeyCode::Char('k') || code == KeyCode::Up {
                    self.select_prev_run();
                } else if code == KeyCode::Char('g') {
                    if self.runs.len() > 0 {
                        self.selected_run = Some(0);
                    }
                } else if code == KeyCode::Char('G') {
                    self.selected_run = self.runs.len().checked_sub(1);
                } else if code == KeyCode::Char('f') {
                    self.jump_to_active_run();
                    self.auto_follow = true;
                }
            },
            FocusPane::MainViewer => {
                if code == KeyCode::Char('j') || code == KeyCode::Down {
                    self.scroll_offset = self.scroll_offset.saturating_add(1);
                    self.auto_follow = false;
                } else if code == KeyCode::Char('k') || code == KeyCode::Up {
                    self.scroll_offset = self.scroll_offset.saturating_sub(1);
                    self.auto_follow = false;
                } else if code == KeyCode::PageDown {
                    self.scroll_offset = self.scroll_offset.saturating_add(20);
                    self.auto_follow = false;
                } else if code == KeyCode::PageUp {
                    self.scroll_offset = self.scroll_offset.saturating_sub(20);
                    self.auto_follow = false;
                } else if code == KeyCode::Char('g') || code == KeyCode::Home {
                    self.scroll_offset = 0;
                    self.auto_follow = false;
                } else if code == KeyCode::Char('G') || code == KeyCode::End || code
                    == KeyCode::Char('f') {
                    self.scroll_to_bottom();
                    self.auto_follow = true;
                } else if code == KeyCode::Enter {
                    self.toggle_tool_expansion();
                } else if code == KeyCode::Char('n') && self.search.highlights_visible {
                    self.search_next();
                } else if code == KeyCode::Char('N') && self.search.highlights_visible {
                    self.search_prev();
                } else if code == KeyCode::Char('e') {
                    self.expand_mode =
                    match self.expand_mode {
                        ExpandMode::Off => ExpandMode::Edits,
                        ExpandMode::Edits => ExpandMode::All,
                        ExpandMode::All => ExpandMode::Off,
                    };
                }
            },
        }
    }

    /// Reacts to a key press.
    pub fn handle_key(&mut self, key: KeyInput)
        requires
            old(self).wf(),
        ensures
            final(self).model() == key_step(old(self).model(), key),
            final(self).wf(),
    {
        if self.show_help {
            self.show_help = false;
            return;
        }
        if self.search.is_active {
            self.handle_search_key(key);
            return;
        }
        let code = key.code;
        if code == KeyCode::Char('q') || (code == KeyCode::Char('c') && key.ctrl) {
            self.should_quit = true;
        } else if code == KeyCode::Tab {
            self.focus =
            match self.focus {
                FocusPane::RunList => FocusPane::MainViewer,
                FocusPane::MainViewer => FocusPane::RunList,
            };
        } else if code == KeyCode::Char('1') {
            self.view_mode = ViewMode::Transcript;
        } else if code == KeyCode::Char('2') {
            self.view_mode = ViewMode::Tools;
        } else if code == KeyCode::Char('3') {
            self.view_mode = ViewMode::Raw;
        } else if code == KeyCode::Char('/') {
            self.search.is_active = true;
            self.search.query = String::new();
        } else if code == KeyCode::Char('?') {
            self.show_help = true;
        } else {
            self.handle_pane_key(key);
        }
    }
}

/// The runs after the stale ones were marked unknown.
pub open spec fn expired(runs: Seq<RunModel>, now: Timestamp) -> Seq<RunModel> {
    Seq::new(
        runs.len(),
        |i: int|
            if is_stale(runs[i], now) {
                RunModel { status: RunStatus::Unknown, ..runs[i] }
            } else {
                runs[i]
            },
    )
}

/// The state after stale runs were marked unknown at `now`; a redraw is asked for
/// when one was.
pub open spec fn timeout_step(a: AppModel, now: Timestamp) -> AppModel {
    AppModel {
        runs: expired(a.runs, now),
        dirty: a.dirty || exists|i: int| 0 <= i < a.runs.len() && is_stale(#[trigger] a.runs[i], now),
        ..a
    }
}

/// Whole seconds from `earlier` to `later` (zero when `later` is not after it).
pub fn whole_secs_since(earlier: Timestamp, later: Timestamp) -> (r: i128)
    ensures
        r == whole_secs_between(earlier, later),
{
    let ns: i128 = (later.secs as i128 - earlier.secs as i128) * 1_000_000_000 + later.nanos as i128
        - earlier.nanos as i128;
    if ns <= 0 {
        0
    } else {
        ns / 1_000_000_000
    }
}

impl App {
    /// Marks as unknown every running run that has not changed for more than a minute
    /// before `now`, and asks for a redraw when it marks one.
    pub fn expire_stale_runs(&mut self, now: Timestamp)
        ensures
            final(self).model() == timeout_step(old(self).model(), now),
    {
        let ghost a = self.model();
        let mut i: usize = 0;
        while i < self.runs.len()
            invariant
                0 <= i <= self.runs.len(),
                self.runs.len() == a.runs.len(),
                forall|j: int| 0 <= j < i ==> #[trigger] runs_model(self.runs@)[j] == expired(a.runs, now)[j],
                forall|j: int| i <= j < self.runs.len() ==> #[trigger] runs_model(self.runs@)[j] == a.runs[j],
                self.model() == (AppModel {
                    runs: runs_model(self.runs@),
                    dirty: self.dirty,
                    ..a
                }),
                self.dirty == (a.dirty || exists|j: int| 0 <= j < i && is_stale(#[trigger] a.runs[j], now)),
            decreases self.runs.len() - i,
        {
            let ghost before = self.runs@;
            assert(runs_model(before)[i as int] == a.runs[i as int]);
            assert(runs_model(before)[i as int] == before[i as int].model());
            let stale = self.runs[i].status == RunStatus::Running && match self.runs[i].last_modified {
                Some(t) => whole_secs_since(t, now) > 60,
                None => false,
            };
            if stale {
                let run = &mut self.runs[i];
                run.status = RunStatus::Unknown;
                self.dirty = true;
            }
            proof {
                assert(is_stale(a.runs[i as int], now) == stale);
                assert forall|j: int| 0 <= j < self.runs.len() && j != i implies #[trigger] runs_model(self.runs@)[j] == runs_model(before)[j] by {
                    assert(runs_model(before)[j] == before[j].model());
                }
                assert(runs_model(self.runs@)[i as int] == expired(a.runs, now)[i as int]);
                if stale {
                    assert(exists|j: int| 0 <= j < i + 1 && is_stale(#[trigger] a.runs[j], now)) by {
                        assert(is_stale(a.runs[i as int], now));
                    }
                } else {
                    assert((exists|j: int| 0 <= j < i + 1 && is_stale(#[trigger] a.runs[j], now)) == (exists|j: int| 0 <= j < i && is_stale(#[trigger] a.runs[j], now)));
                }
            }
            i = i + 1;
        }
        assert(runs_model(self.runs@) =~= expired(a.runs, now));
    }

    /// Marks stale runs at the current instant.
    pub fn check_active_run_timeout(&mut self)
        ensures
            exists|t: Timestamp| final(self).model() == #[trigger] timeout_step(old(self).model(), t),
    {
        let t = now();
        self.expire_stale_runs(t);
    }
}

// ---------------------------------------------------------------------------
// Laws
// ---------------------------------------------------------------------------

/// Pressing Tab twice gives back the state it started from: focus goes to the
/// other pane and back, and nothing else changes.
pub proof fn law_tab_twice_is_identity(a: AppModel, k: KeyInput)
    requires
        !a.show_help,
        !a.search.is_active,
        k.code == KeyCode::Tab,
    ensures
        key_step(a, k).focus != a.focus,
        key_step(key_step(a, k), k) == a,
{
}

/// Expanding a tool call twice in a row gives back the expanded set: the first
/// press flips whether the tool call under the cursor is expanded, the second flips
/// it back; nothing else changes.
pub proof fn law_toggle_tool_twice(a: AppModel)
    ensures
        toggle_tool(toggle_tool(a)) == a,
{
    let b = toggle_tool(a);
    if b != a {
        if a.expanded_tools.contains(a.scroll_offset) {
            assert(b.expanded_tools.insert(a.scroll_offset) =~= a.expanded_tools);
        } else {
            assert(b.expanded_tools.remove(a.scroll_offset) =~= a.expanded_tools);
        }
    }
}

/// While help shows, any key closes it and does nothing else.
pub proof fn law_any_key_closes_help(a: AppModel, k: KeyInput)
    requires
        a.show_help,
    ensures
        key_step(a, k) == (AppModel { show_help: false, ..a }),
{
}

/// Scrolling the main view by hand stops following the live run; `G`, `End` and
/// `f` start following it again.
pub proof fn law_scrolling_and_following(a: AppModel, k: KeyInput)
    requires
        !a.show_help,
        !a.search.is_active,
        a.focus == FocusPane::MainViewer,
        !k.ctrl,
    ensures
        (k.code == KeyCode::Char('j') || k.code == KeyCode::Char('k') || k.code == KeyCode::Up
            || k.code == KeyCode::Down || k.code == KeyCode::PageUp || k.code == KeyCode::PageDown
            || k.code == KeyCode::Home || k.code == KeyCode::Char('g')) ==> !key_step(a, k).auto_follow,
        (k.code == KeyCode::Char('G') || k.code == KeyCode::End || k.code == KeyCode::Char('f'))
            ==> key_step(a, k).auto_follow,
{
}

/// `e` cycles the expand mode through off, edits and all: three presses give the
/// mode back.
pub proof fn law_expand_mode_cycles(a: AppModel, k: KeyInput)
    requires
        !a.show_help,
        !a.search.is_active,
        a.focus == FocusPane::MainViewer,
        k.code == KeyCode::Char('e'),
        !k.ctrl,
    ensures
        key_step(a, k).expand_mode != a.expand_mode,
        key_step(key_step(key_step(a, k), k), k).expand_mode == a.expand_mode,
        key_step(key_step(key_step(a, k), k), k) == a,
{
}

/// Moving to the next match and back returns to the match one started from (when
/// that is one of the matches).
pub proof fn law_next_then_prev_match(a: AppModel)
    requires
        0 < a.search.matches.len() <= usize::MAX,
        a.search.current_match < a.search.matches.len(),
    ensures
        search_prev(search_next(a)).search.current_match == a.search.current_match,
        search_wf(search_next(a).search),
        search_wf(search_prev(a).search),
{
    let n = a.search.matches.len() as int;
    let c = a.search.current_match as int;
    if c + 1 < n {
        assert((c + 1) % n == c + 1) by (nonlinear_arith)
            requires
                0 <= c + 1 < n,
        ;
        assert(search_next(a).search.current_match == c + 1);
    } else {
        assert((c + 1) % n == 0) by (nonlinear_arith)
            requires
                c + 1 == n,
                n > 0,
        ;
        assert(search_next(a).search.current_match == 0);
    }
    assert(0 <= (c + 1) % n < n) by (nonlinear_arith)
        requires
            n > 0,
    ;
}

/// Events keep the search's current match among its matches.
pub proof fn law_events_keep_search_wf(a: AppModel, e: EventModel, now: Timestamp)
    requires
        search_wf(a.search),
    ensures
        search_wf(event_step(a, e, now).search),
{
}

/// Streamed text keeps a single partial item at the end of the run: a second delta
/// replaces the first, and the finished block takes its place.
pub proof fn law_stream_keeps_one_partial(
    a: AppModel,
    run_id: usize,
    t1: Seq<char>,
    t2: Seq<char>,
    done: ItemModel,
    now: Timestamp,
)
    requires
        run_id < a.runs.len(),
    ensures
        ({
            let b = event_step(a, EventModel::StreamDelta { run_id, text: t1 }, now);
            let c = event_step(b, EventModel::StreamDelta { run_id, text: t2 }, now);
            let d = event_step(c, EventModel::StreamBlockDone { run_id, item: done }, now);
            &&& c.runs[run_id as int].items.len() == b.runs[run_id as int].items.len()
            &&& c.runs[run_id as int].items.last() == (ItemModel::AssistantText { text: t2, is_partial: true })
            &&& d.runs[run_id as int].items.len() == b.runs[run_id as int].items.len()
            &&& d.runs[run_id as int].items.last() == done
            &&& d.runs[run_id as int].items.drop_last() == b.runs[run_id as int].items.drop_last()
        }),
{
    let b = event_step(a, EventModel::StreamDelta { run_id, text: t1 }, now);
    let c = event_step(b, EventModel::StreamDelta { run_id, text: t2 }, now);
    let d = event_step(c, EventModel::StreamBlockDone { run_id, item: done }, now);
    assert(c.runs[run_id as int].items.drop_last() =~= b.runs[run_id as int].items.drop_last());
    assert(d.runs[run_id as int].items.drop_last() =~= c.runs[run_id as int].items.drop_last());
}

/// After stale runs are marked, none is left stale.
pub proof fn law_no_stale_run_left(a: AppModel, now: Timestamp)
    ensures
        forall|i: int| 0 <= i < a.runs.len() ==> !is_stale(#[trigger] timeout_step(a, now).runs[i], now),
        timeout_step(a, now).runs.len() == a.runs.len(),
{
}

/// Merging a delta that reports nothing leaves the totals as they were.
pub proof fn law_merge_nothing(s: crate::run::StatsModel)
    ensures
        merged(s, crate::run::zero_stats()) == s,
{
}

/// Merging deltas one after the other is merging their merge: the totals do not
/// depend on how the deltas were batched.
pub proof fn law_merge_batches(a: crate::run::StatsModel, b: crate::run::StatsModel, c: crate::run::StatsModel)
    ensures
        merged(merged(a, b), c) == merged(a, merged(b, c)),
{
}

/// `q` or Control-C quits, whatever pane has the focus, unless help shows or a
/// query is being typed.
pub proof fn law_quit_keys(a: AppModel, k: KeyInput)
    requires
        !a.show_help,
        !a.search.is_active,
        k.code == KeyCode::Char('q') || (k.code == KeyCode::Char('c') && k.ctrl),
    ensures
        key_step(a, k) == (AppModel { should_quit: true, ..a }),
{
}

/// A discovered run joins the list, with nothing read yet, and is selected while
/// the viewer follows new runs.
pub proof fn law_discovered_run_joins(a: AppModel, run_id: usize, path: Seq<char>, now: Timestamp)
    ensures
        ({
            let b = event_step(a, EventModel::RunDiscovered { run_id, path }, now);
            &&& b.runs.len() == a.runs.len() + 1
            &&& b.runs.drop_last() == a.runs
            &&& b.runs.last() == fresh_run(run_id, path)
            &&& a.auto_follow ==> b.selected_run == Some(run_id)
            &&& !a.auto_follow ==> b.selected_run == a.selected_run
        }),
{
    let b = event_step(a, EventModel::RunDiscovered { run_id, path }, now);
    assert(b.runs.drop_last() =~= a.runs);
}

/// New lines of a run add their items and raw lines after the ones it had, and
/// their counts to its totals; the run is running again.
pub proof fn law_updates_append(
    a: AppModel,
    run_id: usize,
    new_items: Seq<ItemModel>,
    raw_lines: Seq<Seq<char>>,
    delta: crate::run::StatsModel,
    now: Timestamp,
)
    requires
        run_id < a.runs.len(),
    ensures
        ({
            let e = EventModel::RunUpdated {
                run_id,
                new_items,
                raw_lines,
                stats_delta: delta,
                session_id: None,
                started_at: None,
            };
            let r = event_step(a, e, now).runs[run_id as int];
            &&& r.items == a.runs[run_id as int].items + new_items
            &&& r.raw_lines == a.runs[run_id as int].raw_lines + raw_lines
            &&& r.stats == merged(a.runs[run_id as int].stats, delta)
            &&& r.status == RunStatus::Running
            &&& event_step(a, e, now).runs.len() == a.runs.len()
        }),
{
}

/// The search hits of a list of items are exactly the indices of the items that match.
proof fn lemma_search_hits_index(items: Seq<ItemModel>, q: Seq<char>, i: int)
    requires
        0 <= i < items.len(),
        items.len() <= usize::MAX,
    ensures
        search_hits(items, q).contains(i as usize) <==> item_hit(items[i], q),
    decreases items.len(),
{
    lemma_search_hits_below(items.drop_last(), q);
    let rest = search_hits(items.drop_last(), q);
    if i < items.len() - 1 {
        lemma_search_hits_index(items.drop_last(), q, i);
        if item_hit(items.last(), q) {
            let pushed = rest.push((items.len() - 1) as usize);
            assert(pushed.contains(i as usize) <==> rest.contains(i as usize)) by {
                if pushed.contains(i as usize) {
                    let k = choose|k: int| 0 <= k < pushed.len() && #[trigger] pushed[k] == i as usize;
                    if k < rest.len() {
                        assert(rest[k] == i as usize);
                    }
                }
                if rest.contains(i as usize) {
                    let k = choose|k: int| 0 <= k < rest.len() && #[trigger] rest[k] == i as usize;
                    assert(pushed[k] == i as usize);
                }
            }
        }
    } else {
        if item_hit(items.last(), q) {
            assert(search_hits(items, q)[rest.len() as int] == i as usize);
        } else {
            if rest.contains(i as usize) {
                let k = choose|k: int| 0 <= k < rest.len() && #[trigger] rest[k] == i as usize;
                assert(rest[k] < items.len() - 1);
            }
        }
    }
}

/// Every search hit is the index of an item.
proof fn lemma_search_hits_below(items: Seq<ItemModel>, q: Seq<char>)
    requires
        items.len() <= usize::MAX,
    ensures
        forall|k: int| 0 <= k < search_hits(items, q).len() ==> search_hits(items, q)[k] < items.len(),
    decreases items.len(),
{
    if items.len() > 0 {
        lemma_search_hits_below(items.drop_last(), q);
        let rest = search_hits(items.drop_last(), q);
        let all = search_hits(items, q);
        assert forall|k: int| 0 <= k < all.len() implies all[k] < items.len() by {
            if k < rest.len() {
                assert(all[k] == rest[k]);
            }
        }
    }
}

/// The search finds every item whose shown text holds the query, compared in lower
/// case: an assistant's, user's or thinking text, a tool call's name or summary, a
/// tool result's summary, an error's message, a system event's label or detail, a
/// run result's stop reason or result text.
pub proof fn law_search_finds_matching_text(items: Seq<ItemModel>, q: Seq<char>, i: int)
    requires
        0 <= i < items.len(),
        items.len() <= usize::MAX,
    ensures
        items[i] matches ItemModel::AssistantText { text, .. } && contains(lowercase(text), q)
            ==> search_hits(items, q).contains(i as usize),
        items[i] matches ItemModel::UserMessage { text } && contains(lowercase(text), q)
            ==> search_hits(items, q).contains(i as usize),
        items[i] matches ItemModel::Thinking { text } && contains(lowercase(text), q)
            ==> search_hits(items, q).contains(i as usize),
        items[i] matches ItemModel::ToolUse { name, summary, .. } && (contains(lowercase(name), q) || contains(
            lowercase(summary),
            q,
        )) ==> search_hits(items, q).contains(i as usize),
        items[i] matches ItemModel::ToolResult { summary, .. } && contains(lowercase(summary), q)
            ==> search_hits(items, q).contains(i as usize),
        items[i] matches ItemModel::Error { message } && contains(lowercase(message), q)
            ==> search_hits(items, q).contains(i as usize),
        items[i] matches ItemModel::SystemEvent { label, detail } && (contains(lowercase(label), q) || contains(
            lowercase(detail),
            q,
        )) ==> search_hits(items, q).contains(i as usize),
        items[i] matches ItemModel::RunResult { stop_reason: Some(s), .. } && contains(lowercase(s), q)
            ==> search_hits(items, q).contains(i as usize),
        items[i] matches ItemModel::RunResult { result_text: Some(t), .. } && contains(lowercase(t), q)
            ==> search_hits(items, q).contains(i as usize),
{
    lemma_search_hits_index(items, q, i);
}

} // verus!
