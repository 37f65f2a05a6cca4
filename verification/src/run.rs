//! Runs, their transcript items and their statistics.
use crate::json::{JsonNumber, JsonValue, Json, Num};
use vstd::prelude::*;

verus! {

/// An instant: whole seconds since the Unix epoch and the nanoseconds after them.
#[derive(Clone, Copy, Debug, PartialEq, Eq, Structural)]
pub struct Timestamp {
    pub secs: i64,
    pub nanos: u32,
}

#[derive(Clone, Copy, Debug, PartialEq, Eq, Structural)]
pub enum RunStatus {
    Running,
    Completed,
    Failed,
    Unknown,
}

/// One entry of a run's transcript.
#[allow(inconsistent_fields)]
pub enum TranscriptItem {
    SessionStart { model: String, tools: Vec<String>, timestamp: Timestamp },
    AssistantText { text: String, is_partial: bool },
    UserMessage { text: String },
    Thinking { text: String },
    ToolUse { name: String, summary: String, input: Option<JsonValue> },
    ToolResult {
        tool_name: String,
        summary: String,
        content: Option<String>,
        duration_ms: Option<u64>,
    },
    SubagentStart { description: String, task_id: String },
    SubagentProgress { description: String, tool_name: Option<String> },
    SubagentEnd {
        summary: String,
        status: String,
        cost_usd: Option<JsonNumber>,
        duration_ms: Option<u64>,
        tool_uses: Option<u64>,
        total_tokens: Option<u64>,
    },
    Error { message: String },
    SystemEvent { label: String, detail: String },
    RunResult {
        is_error: bool,
        stop_reason: Option<String>,
        num_turns: u64,
        total_cost_usd: JsonNumber,
        duration_ms: u64,
        result_text: Option<String>,
    },
}

/// The outcome a session reports when it ends.
pub struct SessionResult {
    pub subtype: String,
    pub is_error: bool,
    pub duration_ms: u64,
    pub num_turns: u64,
    pub total_cost_usd: JsonNumber,
    pub stop_reason: Option<String>,
    pub result_text: Option<String>,
}

/// Counters kept for a run.
pub struct RunStats {
    pub assistant_chars: usize,
    pub tool_calls: usize,
    pub subagent_spawns: usize,
    pub parse_errors: usize,
    pub total_lines: usize,
    pub cost_usd: Option<JsonNumber>,
    pub num_turns: u64,
    pub token_count: u64,
}

/// One transcript file being watched, with what has been read of it.
pub struct Run {
    pub id: usize,
    /// The path of the file, as text.
    pub path: String,
    pub items: Vec<TranscriptItem>,
    pub raw_lines: Vec<String>,
    pub stats: RunStats,
    pub status: RunStatus,
    pub session_id: Option<String>,
    pub started_at: Option<Timestamp>,
    pub ended_at: Option<Timestamp>,
    pub last_modified: Option<Timestamp>,
    pub result: Option<SessionResult>,
}

/// The instant that `chrono::DateTime::parse_from_rfc3339` reads from a text, if it reads one.
pub uninterp spec fn rfc3339_instant(text: Seq<char>) -> Option<Timestamp>;

/// `chrono::DateTime::parse_from_rfc3339`, converted to a Unix instant. Its result is a
/// function of the text alone.
#[verifier::external_body]
pub(crate) fn parse_rfc3339(text: &str) -> (r: Option<Timestamp>)
    ensures
        r == rfc3339_instant(text@),
{
    match chrono::DateTime::parse_from_rfc3339(text) {
        Ok(dt) => Some(Timestamp { secs: dt.timestamp(), nanos: dt.timestamp_subsec_nanos() }),
        Err(_) => None,
    }
}

/// `chrono::Utc::now()` as a Unix instant. Nothing is stated of it: it is the clock.
#[verifier::external_body]
pub(crate) fn now() -> Timestamp {
    let t = chrono::Utc::now();
    Timestamp { secs: t.timestamp(), nanos: t.timestamp_subsec_nanos() }
}

// ---------------------------------------------------------------------------
// Models
// ---------------------------------------------------------------------------
#[allow(inconsistent_fields)]
pub enum ItemModel {
    SessionStart { model: Seq<char>, tools: Seq<Seq<char>>, timestamp: Timestamp },
    AssistantText { text: Seq<char>, is_partial: bool },
    UserMessage { text: Seq<char> },
    Thinking { text: Seq<char> },
    ToolUse { name: Seq<char>, summary: Seq<char>, input: Option<Json> },
    ToolResult {
        tool_name: Seq<char>,
        summary: Seq<char>,
        content: Option<Seq<char>>,
        duration_ms: Option<u64>,
    },
    SubagentStart { description: Seq<char>, task_id: Seq<char> },
    SubagentProgress { description: Seq<char>, tool_name: Option<Seq<char>> },
    SubagentEnd {
        summary: Seq<char>,
        status: Seq<char>,
        cost_usd: Option<Num>,
        duration_ms: Option<u64>,
        tool_uses: Option<u64>,
        total_tokens: Option<u64>,
    },
    Error { message: Seq<char> },
    SystemEvent { label: Seq<char>, detail: Seq<char> },
    RunResult {
        is_error: bool,
        stop_reason: Option<Seq<char>>,
        num_turns: u64,
        total_cost_usd: Num,
        duration_ms: u64,
        result_text: Option<Seq<char>>,
    },
}

pub struct SessionResultModel {
    pub subtype: Seq<char>,
    pub is_error: bool,
    pub duration_ms: u64,
    pub num_turns: u64,
    pub total_cost_usd: Num,
    pub stop_reason: Option<Seq<char>>,
    pub result_text: Option<Seq<char>>,
}

pub struct StatsModel {
    pub assistant_chars: usize,
    pub tool_calls: usize,
    pub subagent_spawns: usize,
    pub parse_errors: usize,
    pub total_lines: usize,
    pub cost_usd: Option<Num>,
    pub num_turns: u64,
    pub token_count: u64,
}

pub open spec fn opt_str(o: Option<String>) -> Option<Seq<char>> {
    match o {
        Some(s) => Some(s@),
        None => None,
    }
}

pub open spec fn opt_num(o: Option<JsonNumber>) -> Option<Num> {
    match o {
        Some(n) => Some(n.model()),
        None => None,
    }
}

pub open spec fn opt_json(o: Option<JsonValue>) -> Option<Json> {
    match o {
        Some(j) => Some(j.model()),
        None => None,
    }
}

pub open spec fn strs_model(v: Seq<String>) -> Seq<Seq<char>> {
    v.map_values(|s: String| s@)
}

impl TranscriptItem {
    pub open spec fn model(&self) -> ItemModel {
        match self {
            TranscriptItem::SessionStart { model, tools, timestamp } => ItemModel::SessionStart {
                model: model@,
                tools: strs_model(tools@),
                timestamp: *timestamp,
            },
            TranscriptItem::AssistantText { text, is_partial } => ItemModel::AssistantText {
                text: text@,
                is_partial: *is_partial,
            },
            TranscriptItem::UserMessage { text } => ItemModel::UserMessage { text: text@ },
            TranscriptItem::Thinking { text } => ItemModel::Thinking { text: text@ },
            TranscriptItem::ToolUse { name, summary, input } => ItemModel::ToolUse {
                name: name@,
                summary: summary@,
                input: opt_json(*input),
            },
            TranscriptItem::ToolResult { tool_name, summary, content, duration_ms } =>
                ItemModel::ToolResult {
                tool_name: tool_name@,
                summary: summary@,
                content: opt_str(*content),
                duration_ms: *duration_ms,
            },
            TranscriptItem::SubagentStart { description, task_id } => ItemModel::SubagentStart {
                description: description@,
                task_id: task_id@,
            },
            TranscriptItem::SubagentProgress { description, tool_name } =>
                ItemModel::SubagentProgress {
                description: description@,
                tool_name: opt_str(*tool_name),
            },
            TranscriptItem::SubagentEnd {
                summary,
                status,
                cost_usd,
                duration_ms,
                tool_uses,
                total_tokens,
            } => ItemModel::SubagentEnd {
                summary: summary@,
                status: status@,
                cost_usd: opt_num(*cost_usd),
                duration_ms: *duration_ms,
                tool_uses: *tool_uses,
                total_tokens: *total_tokens,
            },
            TranscriptItem::Error { message } => ItemModel::Error { message: message@ },
            TranscriptItem::SystemEvent { label, detail } => ItemModel::SystemEvent {
                label: label@,
                detail: detail@,
            },
            TranscriptItem::RunResult {
                is_error,
                stop_reason,
                num_turns,
                total_cost_usd,
                duration_ms,
                result_text,
            } => ItemModel::RunResult {
                is_error: *is_error,
                stop_reason: opt_str(*stop_reason),
                num_turns: *num_turns,
                total_cost_usd: total_cost_usd.model(),
                duration_ms: *duration_ms,
                result_text: opt_str(*result_text),
            },
        }
    }
}

pub open spec fn items_model(v: Seq<TranscriptItem>) -> Seq<ItemModel> {
    v.map_values(|i: TranscriptItem| i.model())
}

impl SessionResult {
    pub open spec fn model(&self) -> SessionResultModel {
        SessionResultModel {
            subtype: self.subtype@,
            is_error: self.is_error,
            duration_ms: self.duration_ms,
            num_turns: self.num_turns,
            total_cost_usd: self.total_cost_usd.model(),
            stop_reason: opt_str(self.stop_reason),
            result_text: opt_str(self.result_text),
        }
    }
}

pub open spec fn opt_result(o: Option<SessionResult>) -> Option<SessionResultModel> {
    match o {
        Some(r) => Some(r.model()),
        None => None,
    }
}

impl RunStats {
    pub open spec fn model(&self) -> StatsModel {
        StatsModel {
            assistant_chars: self.assistant_chars,
            tool_calls: self.tool_calls,
            subagent_spawns: self.subagent_spawns,
            parse_errors: self.parse_errors,
            total_lines: self.total_lines,
            cost_usd: opt_num(self.cost_usd),
            num_turns: self.num_turns,
            token_count: self.token_count,
        }
    }
}

/// All counters zero and no cost.
pub open spec fn zero_stats() -> StatsModel {
    StatsModel {
        assistant_chars: 0,
        tool_calls: 0,
        subagent_spawns: 0,
        parse_errors: 0,
        total_lines: 0,
        cost_usd: None,
        num_turns: 0,
        token_count: 0,
    }
}

/// `a + b`, or `usize::MAX` when the sum does not fit.
pub open spec fn sat_add(a: usize, b: usize) -> usize {
    if a + b > usize::MAX {
        usize::MAX
    } else {
        (a + b) as usize
    }
}

/// Folding a delta into running totals: counts add up, the cost is replaced by
/// the delta's when it has one, and the turn and token totals are replaced when
/// the delta reports them.
pub open spec fn merged(a: StatsModel, b: StatsModel) -> StatsModel {
    StatsModel {
        assistant_chars: sat_add(a.assistant_chars, b.assistant_chars),
        tool_calls: sat_add(a.tool_calls, b.tool_calls),
        subagent_spawns: sat_add(a.subagent_spawns, b.subagent_spawns),
        parse_errors: sat_add(a.parse_errors, b.parse_errors),
        total_lines: sat_add(a.total_lines, b.total_lines),
        cost_usd: if b.cost_usd is Some {
            b.cost_usd
        } else {
            a.cost_usd
        },
        num_turns: if b.num_turns > 0 {
            b.num_turns
        } else {
            a.num_turns
        },
        token_count: if b.token_count > 0 {
            b.token_count
        } else {
            a.token_count
        },
    }
}

/// Model of a run.
pub struct RunModel {
    pub id: usize,
    pub path: Seq<char>,
    pub items: Seq<ItemModel>,
    pub raw_lines: Seq<Seq<char>>,
    pub stats: StatsModel,
    pub status: RunStatus,
    pub session_id: Option<Seq<char>>,
    pub started_at: Option<Timestamp>,
    pub ended_at: Option<Timestamp>,
    pub last_modified: Option<Timestamp>,
    pub result: Option<SessionResultModel>,
}

impl Run {
    pub open spec fn model(&self) -> RunModel {
        RunModel {
            id: self.id,
            path: self.path@,
            items: items_model(self.items@),
            raw_lines: strs_model(self.raw_lines@),
            stats: self.stats.model(),
            status: self.status,
            session_id: opt_str(self.session_id),
            started_at: self.started_at,
            ended_at: self.ended_at,
            last_modified: self.last_modified,
            result: opt_result(self.result),
        }
    }
}

/// A run that has just been discovered.
pub open spec fn fresh_run(id: usize, path: Seq<char>) -> RunModel {
    RunModel {
        id,
        path,
        items: Seq::empty(),
        raw_lines: Seq::empty(),
        stats: zero_stats(),
        status: RunStatus::Unknown,
        session_id: None,
        started_at: None,
        ended_at: None,
        last_modified: None,
        result: None,
    }
}

pub open spec fn runs_model(v: Seq<Run>) -> Seq<RunModel> {
    v.map_values(|r: Run| r.model())
}

impl JsonNumber {
    /// A copy of this number.
    pub fn duplicate(&self) -> (r: JsonNumber)
        ensures
            r.model() == self.model(),
    {
        JsonNumber { text: self.text.clone(), unsigned: self.unsigned }
    }

    /// The number zero.
    pub fn zero() -> (r: JsonNumber)
        ensures
            r.model() == (Num { text: seq!['0'], unsigned: Some(0) }),
    {
        let mut text = String::new();
        crate::text::push_char(&mut text, '0');
        JsonNumber { text, unsigned: Some(0) }
    }
}

pub fn copy_opt_string(o: &Option<String>) -> (r: Option<String>)
    ensures
        opt_str(r) == opt_str(*o),
{
    match o {
        Some(s) => Some(s.clone()),
        None => None,
    }
}

pub fn copy_opt_number(o: &Option<JsonNumber>) -> (r: Option<JsonNumber>)
    ensures
        opt_num(r) == opt_num(*o),
{
    match o {
        Some(n) => Some(n.duplicate()),
        None => None,
    }
}

impl SessionResult {
    /// A copy of this result.
    pub fn duplicate(&self) -> (r: SessionResult)
        ensures
            r.model() == self.model(),
    {
        SessionResult {
            subtype: self.subtype.clone(),
            is_error: self.is_error,
            duration_ms: self.duration_ms,
            num_turns: self.num_turns,
            total_cost_usd: self.total_cost_usd.duplicate(),
            stop_reason: copy_opt_string(&self.stop_reason),
            result_text: copy_opt_string(&self.result_text),
        }
    }
}

impl RunStats {
    /// All counters zero and no cost.
    pub fn new() -> (r: RunStats)
        ensures
            r.model() == zero_stats(),
    {
        RunStats {
            assistant_chars: 0,
            tool_calls: 0,
            subagent_spawns: 0,
            parse_errors: 0,
            total_lines: 0,
            cost_usd: None,
            num_turns: 0,
            token_count: 0,
        }
    }

    /// Folds `other` into these totals.
    pub fn merge(&mut self, other: &RunStats)
        ensures
            final(self).model() == merged(old(self).model(), other.model()),
    {
        self.assistant_chars = self.assistant_chars.saturating_add(other.assistant_chars);
        self.tool_calls = self.tool_calls.saturating_add(other.tool_calls);
        self.subagent_spawns = self.subagent_spawns.saturating_add(other.subagent_spawns);
        self.parse_errors = self.parse_errors.saturating_add(other.parse_errors);
        self.total_lines = self.total_lines.saturating_add(other.total_lines);
        if other.cost_usd.is_some() {
            self.cost_usd = copy_opt_number(&other.cost_usd);
        }
        if other.num_turns > 0 {
            self.num_turns = other.num_turns;
        }
        if other.token_count > 0 {
            self.token_count = other.token_count;
        }
    }
}

impl Default for RunStats {
    fn default() -> (r: RunStats)
        ensures
            r.model() == zero_stats(),
    {
        RunStats::new()
    }
}

impl Run {
    /// A run just discovered: nothing read yet, status unknown.
    pub fn new(id: usize, path: String) -> (r: Run)
        ensures
            r.model() == fresh_run(id, path@),
    {
        let r = Run {
            id,
            path,
            items: Vec::new(),
            raw_lines: Vec::new(),
            stats: RunStats::new(),
            status: RunStatus::Unknown,
            session_id: None,
            started_at: None,
            ended_at: None,
            last_modified: None,
            result: None,
        };
        assert(items_model(r.items@) =~= Seq::<ItemModel>::empty());
        assert(strs_model(r.raw_lines@) =~= Seq::<Seq<char>>::empty());
        r
    }
}

} // verus!
