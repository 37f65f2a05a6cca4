//! Turning the lines of a transcript file into events: the decisions of the file
//! watcher, with the file system left to the caller.
use crate::codex_parser::CodexParser;
use crate::events::{AppEvent, EventModel};
use crate::json::{field, parse_json, str_field, Json, JsonValue};
use crate::codex_parser::{codex_outcome, line_call_arguments};
use crate::json::{json_accepts, json_document, read_doc};
use crate::parser::{
    claude_outcome, is_json_error_message, parse_line, Format, LineMeta, MetaModel, Outcome,
    ParseResult, TranscriptParser,
};
use crate::run::{
    items_model, opt_str, sat_add, strs_model, zero_stats, ItemModel, RunStats, StatsModel, Timestamp, TranscriptItem,
};
use crate::streaming::{process_stream_event, stream_step, AccModel, DeltaAccumulator};
use crate::text::{lines_of, split_lines};
use vstd::prelude::*;
use vstd::utf8::encode_utf8;

verus! {

/// What is known of a file being watched.
pub struct WatchedFile {
    pub run_id: usize,
    pub bytes_read: u64,
    pub has_result: bool,
    pub format: Option<Format>,
    /// Whether a Codex `turn_context` line was read; only the first one is shown.
    pub turn_seen: bool,
}

/// The lines gathered from one read of a file.
pub struct LineBatch {
    pub items: Vec<TranscriptItem>,
    pub raw_lines: Vec<String>,
    pub stats: RunStats,
    pub session_id: Option<String>,
    pub started_at: Option<Timestamp>,
    pub has_result: bool,
    pub events: Vec<AppEvent>,
}

pub struct BatchModel {
    pub items: Seq<ItemModel>,
    pub raw_lines: Seq<Seq<char>>,
    pub stats: StatsModel,
    pub session_id: Option<Seq<char>>,
    pub started_at: Option<Timestamp>,
    pub has_result: bool,
    pub events: Seq<EventModel>,
}

impl LineBatch {
    pub open spec fn model(&self) -> BatchModel {
        BatchModel {
            items: items_model(self.items@),
            raw_lines: strs_model(self.raw_lines@),
            stats: self.stats.model(),
            session_id: opt_str(self.session_id),
            started_at: self.started_at,
            has_result: self.has_result,
            events: self.events@.map_values(|e: AppEvent| e.model()),
        }
    }
}

pub open spec fn empty_batch() -> BatchModel {
    BatchModel {
        items: Seq::empty(),
        raw_lines: Seq::empty(),
        stats: zero_stats(),
        session_id: None,
        started_at: None,
        has_result: false,
        events: Seq::empty(),
    }
}

/// Counters after one item: tool calls, assistant text bytes and sub-agent spawns.
pub open spec fn count_item(s: StatsModel, item: ItemModel) -> StatsModel {
    match item {
        ItemModel::ToolUse { .. } => StatsModel { tool_calls: sat_add(s.tool_calls, 1), ..s },
        ItemModel::AssistantText { text, .. } => StatsModel {
            assistant_chars: sat_add(s.assistant_chars, encode_utf8(text).len() as usize),
            ..s
        },
        ItemModel::SubagentStart { .. } => StatsModel {
            subagent_spawns: sat_add(s.subagent_spawns, 1),
            ..s
        },
        _ => s,
    }
}

pub open spec fn count_items(s: StatsModel, items: Seq<ItemModel>) -> StatsModel
    decreases items.len(),
{
    if items.len() == 0 {
        s
    } else {
        count_item(count_items(s, items.drop_last()), items.last())
    }
}

/// A parsed line folded into a batch: the first session id and timestamp are kept,
/// the items are counted and appended, and a reported result completes the run.
pub open spec fn batch_parsed(
    b: BatchModel,
    new_items: Seq<ItemModel>,
    meta: MetaModel,
    run_id: usize,
) -> BatchModel {
    let stats = count_items(b.stats, new_items);
    BatchModel {
        session_id: if b.session_id is None {
            meta.session_id
        } else {
            b.session_id
        },
        started_at: if b.started_at is None {
            meta.timestamp
        } else {
            b.started_at
        },
        stats: match meta.session_result {
            Some(r) => StatsModel {
                cost_usd: Some(r.total_cost_usd),
                num_turns: r.num_turns,
                token_count: if meta.stats_delta.token_count > 0 {
                    meta.stats_delta.token_count
                } else {
                    stats.token_count
                },
                ..stats
            },
            None => stats,
        },
        events: match meta.session_result {
            Some(r) => b.events.push(EventModel::RunCompleted { run_id, result: r }),
            None => b.events,
        },
        has_result: b.has_result || meta.session_result is Some,
        items: b.items + new_items,
        ..b
    }
}

/// A line that failed to parse folded into a batch.
pub open spec fn batch_error(b: BatchModel, run_id: usize, line_no: usize, error: Seq<char>) -> BatchModel {
    BatchModel {
        stats: StatsModel { parse_errors: sat_add(b.stats.parse_errors, 1), ..b.stats },
        events: b.events.push(EventModel::ParseError { run_id, line_no, error }),
        ..b
    }
}

/// The batch's closing update, sent when it gathered transcript items.
pub open spec fn batch_finished(b: BatchModel, run_id: usize) -> Seq<EventModel> {
    if b.items.len() > 0 {
        b.events.push(
            EventModel::RunUpdated {
                run_id,
                new_items: b.items,
                raw_lines: b.raw_lines,
                stats_delta: b.stats,
                session_id: b.session_id,
                started_at: b.started_at,
            },
        )
    } else {
        b.events
    }
}

pub open spec fn events_model(v: Seq<AppEvent>) -> Seq<EventModel> {
    v.map_values(|e: AppEvent| e.model())
}

impl LineBatch {
    pub fn new() -> (r: LineBatch)
        ensures
            r.model() == empty_batch(),
    {
        let r = LineBatch {
            items: Vec::new(),
            raw_lines: Vec::new(),
            stats: RunStats::new(),
            session_id: None,
            started_at: None,
            has_result: false,
            events: Vec::new(),
        };
        assert(items_model(r.items@) =~= Seq::<ItemModel>::empty());
        assert(strs_model(r.raw_lines@) =~= Seq::<Seq<char>>::empty());
        assert(events_model(r.events@) =~= Seq::<EventModel>::empty());
        r
    }

    /// Folds a parsed line into the batch; returns whether it reported the session's result.
    pub fn process_parsed_line(&mut self, new_items: Vec<TranscriptItem>, meta: LineMeta, run_id: usize) -> (has_result: bool)
        ensures
            final(self).model() == batch_parsed(old(self).model(), items_model(new_items@), meta.model(), run_id),
            has_result == meta.session_result is Some,
    {
        let ghost b = self.model();
        let ghost nim = items_model(new_items@);
        if self.session_id.is_none() {
            self.session_id = meta.session_id;
        }
        if self.started_at.is_none() {
            self.started_at = meta.timestamp;
        }
        let ghost b1 = self.model();
        let mut i: usize = 0;
        assert(nim.take(0) =~= Seq::<ItemModel>::empty());
        while i < new_items.len()
            invariant
                0 <= i <= new_items.len(),
                nim == items_model(new_items@),
                self.model() == (BatchModel { stats: self.stats.model(), ..b1 }),
                self.stats.model() == count_items(b.stats, nim.take(i as int)),
            decreases new_items.len() - i,
        {
            proof {
                let t = nim.take(i + 1);
                assert(t.drop_last() =~= nim.take(i as int));
                assert(t.last() == new_items@[i as int].model());
            }
            match &new_items[i] {
                TranscriptItem::ToolUse { .. } => {
                    self.stats.tool_calls = self.stats.tool_calls.saturating_add(1);
                },
                TranscriptItem::AssistantText { text, .. } => {
                    self.stats.assistant_chars = self.stats.assistant_chars.saturating_add(text.as_str().len());
                },
                TranscriptItem::SubagentStart { .. } => {
                    self.stats.subagent_spawns = self.stats.subagent_spawns.saturating_add(1);
                },
                _ => {},
            }
            i = i + 1;
        }
        assert(nim.take(new_items.len() as int) =~= nim);
        let tokens = meta.stats_delta.token_count;
        let has_result = match meta.session_result {
            Some(result) => {
                self.stats.cost_usd = Some(result.total_cost_usd.duplicate());
                self.stats.num_turns = result.num_turns;
                if tokens > 0 {
                    self.stats.token_count = tokens;
                }
                let ghost ev = self.events@;
                let ghost rm = result.model();
                self.events.push(AppEvent::RunCompleted { run_id, result });
                assert(events_model(self.events@) =~= events_model(ev).push(EventModel::RunCompleted { run_id, result: rm }));
                true
            },
            None => false,
        };
        if has_result {
            self.has_result = true;
        }
        let mut new_items = new_items;
        let ghost old_items = self.items@;
        self.items.append(&mut new_items);
        assert(items_model(self.items@) =~= items_model(old_items) + nim);
        has_result
    }

    /// Records a line that failed to parse.
    pub fn process_error(&mut self, run_id: usize, line_no: usize, error: String)
        ensures
            final(self).model() == batch_error(old(self).model(), run_id, line_no, error@),
    {
        self.stats.parse_errors = self.stats.parse_errors.saturating_add(1);
        let ghost ev = self.events@;
        let ghost em = error@;
        self.events.push(AppEvent::ParseError { run_id, line_no, error });
        assert(events_model(self.events@) =~= events_model(ev).push(EventModel::ParseError { run_id, line_no, error: em }));
    }

    /// The events of the batch, ending with the update that carries its items when it has any.
    pub fn finish(self, run_id: usize) -> (r: Vec<AppEvent>)
        ensures
            events_model(r@) == batch_finished(self.model(), run_id),
    {
        let ghost b = self.model();
        let LineBatch { items, raw_lines, stats, session_id, started_at, has_result: _, events } = self;
        let mut events = events;
        if items.len() > 0 {
            let ghost ev = events@;
            events.push(AppEvent::RunUpdated {
                run_id,
                new_items: items,
                raw_lines,
                stats_delta: stats,
                session_id,
                started_at,
            });
            assert(events_model(events@) =~= events_model(ev).push(EventModel::RunUpdated {
                run_id,
                new_items: b.items,
                raw_lines: b.raw_lines,
                stats_delta: b.stats,
                session_id: b.session_id,
                started_at: b.started_at,
            }));
        }
        events
    }
}

/// Where to start reading a file of `file_size` bytes of which `bytes_read` were read:
/// from the start when it shrank (even to nothing, so that what was read is forgotten);
/// nothing when it did not change.
pub open spec fn read_start(file_size: u64, bytes_read: u64) -> Option<u64> {
    if file_size == bytes_read {
        None
    } else if file_size < bytes_read {
        Some(0)
    } else {
        Some(bytes_read)
    }
}

/// Where to start reading a file that has grown, shrunk or stayed as it was.
pub fn read_plan(file_size: u64, bytes_read: u64) -> (r: Option<u64>)
    ensures
        r == read_start(file_size, bytes_read),
{
    if file_size == bytes_read {
        None
    } else if file_size < bytes_read {
        Some(0)
    } else {
        Some(bytes_read)
    }
}

/// A file that grew is read from where reading stopped; one that shrank, even to
/// nothing, is read again from the start; one that did not change is not read.
pub proof fn law_read_plan(file_size: u64, bytes_read: u64)
    ensures
        file_size == bytes_read ==> read_start(file_size, bytes_read) is None,
        file_size > bytes_read ==> read_start(file_size, bytes_read) == Some(bytes_read),
        file_size < bytes_read ==> read_start(file_size, bytes_read) == Some(0u64),
        read_start(file_size, bytes_read) matches Some(start) ==> start <= file_size,
{
}

/// The format of a transcript, read from its first line: Codex lines carry a
/// `payload` member, stream-json lines do not.
pub open spec fn format_of(v: Json) -> Format {
    if field(v, "payload"@) is Some {
        Format::Codex
    } else {
        Format::ClaudeCode
    }
}

/// The format of a parsed first line.
pub fn detect_format_value(v: &JsonValue) -> (r: Format)
    ensures
        r == format_of(v.model()),
{
    if v.get("payload").is_some() {
        Format::Codex
    } else {
        Format::ClaudeCode
    }
}

/// The format of a transcript from its first line; `None` when the line is not JSON.
pub fn detect_format(first_line: &str) -> (r: Option<Format>)
    ensures
        r == if json_accepts(first_line@) {
            Some(format_of(json_document(first_line@)))
        } else {
            None
        },
{
    match parse_json(first_line) {
        Ok(v) => Some(detect_format_value(&v)),
        Err(_) => None,
    }
}

/// Whether a parsed line is a `stream_event`.
pub fn is_stream_event(v: &JsonValue) -> (r: bool)
    ensures
        r == (str_field(v.model(), "type"@) == Some("stream_event"@)),
{
    match v.get_str("type") {
        Some(t) => crate::json::str_eq(t.as_str(), "stream_event"),
        None => false,
    }
}

/// What one line of a file came to.
pub enum LineOutcome {
    /// An empty line, passed over.
    Blank,
    /// A `stream_event` of the active run, and the text it asked to show.
    Streamed(Option<Seq<char>>),
    /// A line read by the transcript parser.
    Read(Outcome),
}

/// What reading `line` in `format` can give: a line that is not JSON is an error
/// carrying serde_json's message; otherwise the outcome of the document serde_json
/// reads from it, at some instant.
pub open spec fn read_ok(format: Format, line: Seq<char>, o: Outcome) -> bool {
    &&& (!json_accepts(line) ==> (o matches Outcome::Error(m) && is_json_error_message(m)))
    &&& (json_accepts(line) ==> match format {
        Format::ClaudeCode => exists|now: Timestamp| o == claude_outcome(json_document(line), now),
        Format::Codex => exists|now: Timestamp|
            o == codex_outcome(json_document(line), now, read_doc(line_call_arguments(json_document(line)))),
    })
}

/// Whether a line of a Codex file is a `turn_context` line.
pub open spec fn is_turn_line(format: Format, line: Seq<char>) -> bool {
    &&& format == Format::Codex
    &&& line.len() > 0
    &&& json_accepts(line)
    &&& str_field(json_document(line), "type"@) == Some("turn_context"@)
}

/// Whether a `turn_context` line came before line `k` (or `seen` says one came in an
/// earlier read).
pub open spec fn turn_seen_at(seen: bool, format: Format, lines: Seq<Seq<char>>, k: int) -> bool {
    seen || exists|j: int| 0 <= j < k && #[trigger] is_turn_line(format, lines[j])
}

/// Whether `out` is a possible outcome of `line`, `seen` telling whether a
/// `turn_context` line came before: a later one is passed over, as its session start
/// is shown once.
pub open spec fn line_outcome_ok(format: Format, is_active: bool, seen: bool, line: Seq<char>, out: LineOutcome) -> bool {
    match out {
        LineOutcome::Blank => line.len() == 0,
        LineOutcome::Streamed(_) => line.len() > 0 && is_active && format == Format::ClaudeCode
            && json_accepts(line) && str_field(json_document(line), "type"@) == Some("stream_event"@),
        LineOutcome::Read(o) => line.len() > 0 && if seen && is_turn_line(format, line) {
            o == Outcome::Skipped
        } else {
            read_ok(format, line, o)
        },
    }
}

/// Whether a line is a `turn_context` line of a Codex file.
fn is_turn_context(line: &str) -> (r: bool)
    ensures
        r == (json_accepts(line@) && str_field(json_document(line@), "type"@) == Some("turn_context"@)),
{
    match parse_json(line) {
        Ok(v) => match v.get_str("type") {
            Some(t) => crate::json::str_eq(t.as_str(), "turn_context"),
            None => false,
        },
        Err(_) => false,
    }
}

/// One line's outcome folded into the batch; `line_no` is its number in the file.
pub open spec fn batch_step(b: BatchModel, run_id: usize, line_no: usize, line: Seq<char>, out: LineOutcome) -> BatchModel {
    match out {
        LineOutcome::Blank => b,
        _ => {
            let b1 = BatchModel {
                stats: StatsModel { total_lines: sat_add(b.stats.total_lines, 1), ..b.stats },
                raw_lines: b.raw_lines.push(line),
                ..b
            };
            match out {
                LineOutcome::Streamed(Some(text)) => BatchModel {
                    events: b1.events.push(EventModel::StreamDelta { run_id, text }),
                    ..b1
                },
                LineOutcome::Read(Outcome::Parsed(items, meta)) => batch_parsed(b1, items, meta, run_id),
                LineOutcome::Read(Outcome::Error(e)) => batch_error(b1, run_id, line_no, e),
                _ => b1,
            }
        },
    }
}

/// The batch after the first `outs.len()` lines.
pub open spec fn batch_fold(run_id: usize, start_line: usize, lines: Seq<Seq<char>>, outs: Seq<LineOutcome>) -> BatchModel
    decreases outs.len(),
{
    if outs.len() == 0 {
        empty_batch()
    } else {
        let i = outs.len() - 1;
        batch_step(
            batch_fold(run_id, start_line, lines, outs.drop_last()),
            run_id,
            sat_add(start_line, i as usize),
            lines[i],
            outs[i],
        )
    }
}

/// Reads one line in the given format.
pub fn parse_line_as(format: Format, line: &str) -> (r: ParseResult)
    ensures
        read_ok(format, line@, r.model()),
{
    match format {
        Format::ClaudeCode => parse_line(line),
        Format::Codex => CodexParser.parse_codex_line(line),
    }
}

/// The format a file's content shows: that of its first line's document, and
/// stream-json when that line is not JSON (or there is none).
pub open spec fn first_format(content: Seq<char>) -> Format {
    let ls = lines_of(content);
    if ls.len() > 0 {
        match read_doc(ls[0]) {
            Some(d) => format_of(d),
            None => Format::ClaudeCode,
        }
    } else {
        Format::ClaudeCode
    }
}

/// The accumulator after one line: a streamed line steps it with the event the line
/// holds; any other line leaves it.
pub open spec fn acc_next(line: Seq<char>, out: LineOutcome, a: AccModel) -> AccModel {
    match out {
        LineOutcome::Streamed(_) => stream_step(json_document(line), a).0,
        _ => a,
    }
}

/// The accumulator after the lines whose outcomes are `outs`, from `a`.
pub open spec fn acc_fold(a: AccModel, lines: Seq<Seq<char>>, outs: Seq<LineOutcome>) -> AccModel
    decreases outs.len(),
{
    if outs.len() == 0 {
        a
    } else {
        acc_next(lines[outs.len() - 1], outs.last(), acc_fold(a, lines, outs.drop_last()))
    }
}

/// A streamed line shows what its event, stepped from the accumulator `a`, shows.
pub open spec fn streamed_ok(line: Seq<char>, out: LineOutcome, a: AccModel) -> bool {
    out matches LineOutcome::Streamed(t) ==> t == stream_step(json_document(line), a).1
}

/// Reads the lines of `content` for run `run_id`: blank lines are passed over, every
/// other line is counted and kept raw; for the active stream-json run, `stream_event`
/// lines feed the accumulator, and the rest are parsed. Line numbers start at
/// `start_line`. Returns the events in the order they arose and whether a line
/// reported the session's result.
pub fn process_content(
    run_id: usize,
    content: &str,
    start_line: usize,
    format: Format,
    is_active: bool,
    acc: &mut DeltaAccumulator,
    turn_seen: &mut bool,
) -> (r: (Vec<AppEvent>, bool))
    ensures
        *final(turn_seen) == turn_seen_at(*old(turn_seen), format, lines_of(content@), lines_of(content@).len() as int),
        exists|outs: Seq<LineOutcome>|
            {
                &&& outs.len() == lines_of(content@).len()
                &&& forall|i: int|
                    0 <= i < outs.len() ==> line_outcome_ok(
                        format,
                        is_active,
                        turn_seen_at(*old(turn_seen), format, lines_of(content@), i),
                        lines_of(content@)[i],
                        #[trigger] outs[i],
                    )
                &&& forall|i: int|
                    0 <= i < outs.len() ==> streamed_ok(
                        lines_of(content@)[i],
                        #[trigger] outs[i],
                        acc_fold(old(acc).model(), lines_of(content@), outs.take(i)),
                    )
                &&& final(acc).model() == acc_fold(old(acc).model(), lines_of(content@), outs)
                &&& events_model(r.0@) == batch_finished(batch_fold(run_id, start_line, lines_of(content@), outs), run_id)
                &&& r.1 == batch_fold(run_id, start_line, lines_of(content@), outs).has_result
            },
{
    let lines = split_lines(content);
    let ghost ls = lines_of(content@);
    let mut batch = LineBatch::new();
    let ghost mut outs: Seq<LineOutcome> = Seq::empty();
    let mut i: usize = 0;
    while i < lines.len()
        invariant
            0 <= i <= lines.len(),
            lines@.map_values(|l: String| l@) == ls,
            ls == lines_of(content@),
            outs.len() == i,
            forall|k: int| 0 <= k < i ==> line_outcome_ok(format, is_active, turn_seen_at(*old(turn_seen), format, ls, k), ls[k], #[trigger] outs[k]),
            *turn_seen == turn_seen_at(*old(turn_seen), format, ls, i as int),
            forall|k: int| 0 <= k < i ==> streamed_ok(ls[k], #[trigger] outs[k], acc_fold(old(acc).model(), ls, outs.take(k))),
            acc.model() == acc_fold(old(acc).model(), ls, outs),
            batch.model() == batch_fold(run_id, start_line, ls, outs),
        decreases lines.len() - i,
    {
        let line = lines[i].as_str();
        assert(line@ == ls[i as int]);
        let ghost b0 = batch.model();
        let ghost seen_before = *turn_seen;
        let ghost mut turned = false;
        let ghost out: LineOutcome;
        if line.is_empty() {
            proof { out = LineOutcome::Blank; }
        } else {
            batch.stats.total_lines = batch.stats.total_lines.saturating_add(1);
            let ghost prev_raw = batch.raw_lines@;
            batch.raw_lines.push(line.to_owned());
            assert(strs_model(batch.raw_lines@) =~= strs_model(prev_raw).push(line@));
            let ghost b1 = batch.model();
            let mut streamed = false;
            let ghost mut shown: Option<Seq<char>> = None;
            if is_active && format == Format::ClaudeCode {
                match parse_json(line) {
                    Ok(v) => {
                        if is_stream_event(&v) {
                            streamed = true;
                            match process_stream_event(&v, run_id, acc) {
                                Some(e) => {
                                    let ghost ev = batch.events@;
                                    let ghost em = e.model();
                                    batch.events.push(e);
                                    assert(events_model(batch.events@) =~= events_model(ev).push(em));
                                    proof {
                                        if let EventModel::StreamDelta { run_id: _, text } = em {
                                            shown = Some(text);
                                        }
                                    }
                                },
                                None => {},
                            }
                        }
                    },
                    Err(_) => {},
                }
            }
            if streamed {
                proof { out = LineOutcome::Streamed(shown); }
            } else {
                let line_no = start_line.saturating_add(i);
                let turn = format == Format::Codex && is_turn_context(line);
                let pr = if turn && *turn_seen {
                    ParseResult::Skipped
                } else {
                    parse_line_as(format, line)
                };
                if turn {
                    *turn_seen = true;
                }
                proof {
                    turned = turn;
                }
                let ghost o = pr.model();
                match pr {
                    ParseResult::Parsed(new_items, meta) => {
                        let _ = batch.process_parsed_line(new_items, meta, run_id);
                    },
                    ParseResult::Skipped => {},
                    ParseResult::Error(err) => {
                        batch.process_error(run_id, line_no, err);
                    },
                }
                proof { out = LineOutcome::Read(o); }
            }
        }
        proof {
            let seen0 = *old(turn_seen);
            assert(turned == is_turn_line(format, ls[i as int]));
            assert(*turn_seen == (seen_before || turned));
            if is_turn_line(format, ls[i as int]) {
                assert(turn_seen_at(seen0, format, ls, i + 1));
            } else if turn_seen_at(seen0, format, ls, i + 1) && !seen0 {
                let j = choose|j: int| 0 <= j < i + 1 && #[trigger] is_turn_line(format, ls[j]);
                assert(j != i);
                assert(turn_seen_at(seen0, format, ls, i as int));
            }
            let outs2 = outs.push(out);
            assert(outs2.drop_last() =~= outs);
            assert(outs2.take(i as int) =~= outs);
            assert forall|k: int| 0 <= k < i implies outs2.take(k) =~= outs.take(k) by {}
            outs = outs2;
        }
        i = i + 1;
    }
    let has_result = batch.has_result;
    (batch.finish(run_id), has_result)
}

impl WatchedFile {
    /// A file discovered as run `run_id`, nothing read yet.
    pub fn new(run_id: usize) -> (r: WatchedFile)
        ensures
            r.run_id == run_id,
            r.bytes_read == 0,
            !r.has_result,
            r.format is None,
            !r.turn_seen,
    {
        WatchedFile { run_id, bytes_read: 0, has_result: false, format: None, turn_seen: false }
    }

    /// Takes in `content`, the bytes of the file from `start` up to `file_size`.
    /// The format is settled from the first line the file shows (stream-json when that
    /// line is not JSON); `stream_event` lines feed the accumulator only when
    /// `streaming` is asked for and the run has not reported its result.
    pub fn ingest(
        &mut self,
        content: &str,
        start: u64,
        file_size: u64,
        streaming: bool,
        acc: &mut DeltaAccumulator,
    ) -> (r: Vec<AppEvent>)
        ensures
            final(self).run_id == old(self).run_id,
            final(self).bytes_read == file_size,
            old(self).format matches Some(f) ==> final(self).format == Some(f),
            old(self).format is None && content@.len() == 0 ==> final(self).format is None,
            old(self).format is None && content@.len() > 0 ==> final(self).format == Some(first_format(content@)),
            final(self).turn_seen == turn_seen_at(
                old(self).turn_seen,
                match final(self).format {
                    Some(f) => f,
                    None => Format::ClaudeCode,
                },
                lines_of(content@),
                lines_of(content@).len() as int,
            ),
            exists|outs: Seq<LineOutcome>|
                #![trigger batch_fold(old(self).run_id, start as usize, lines_of(content@), outs)]
                {
                    let b = batch_fold(
                        old(self).run_id,
                        start as usize,
                        lines_of(content@),
                        outs,
                    );
                    &&& outs.len() == lines_of(content@).len()
                    &&& forall|i: int|
                        0 <= i < outs.len() ==> line_outcome_ok(
                            match final(self).format {
                                Some(f) => f,
                                None => Format::ClaudeCode,
                            },
                            streaming && !old(self).has_result,
                            turn_seen_at(
                                old(self).turn_seen,
                                match final(self).format {
                                    Some(f) => f,
                                    None => Format::ClaudeCode,
                                },
                                lines_of(content@),
                                i,
                            ),
                            lines_of(content@)[i],
                            #[trigger] outs[i],
                        )
                    &&& forall|i: int|
                        0 <= i < outs.len() ==> streamed_ok(
                            lines_of(content@)[i],
                            #[trigger] outs[i],
                            acc_fold(old(acc).model(), lines_of(content@), outs.take(i)),
                        )
                    &&& final(acc).model() == acc_fold(old(acc).model(), lines_of(content@), outs)
                    &&& events_model(r@) == batch_finished(b, old(self).run_id)
                    &&& final(self).has_result == (old(self).has_result || b.has_result)
                },
    {
        if self.format.is_none() && !content.is_empty() {
            let lines = split_lines(content);
            let f = if lines.len() > 0 {
                match detect_format(lines[0].as_str()) {
                    Some(f) => f,
                    None => Format::ClaudeCode,
                }
            } else {
                Format::ClaudeCode
            };
            self.format = Some(f);
        }
        let format = match self.format {
            Some(f) => f,
            None => Format::ClaudeCode,
        };
        let is_active = streaming && !self.has_result;
        let (events, has_result) = process_content(
            self.run_id,
            content,
            start as usize,
            format,
            is_active,
            acc,
            &mut self.turn_seen,
        );
        if has_result {
            self.has_result = true;
        }
        self.bytes_read = file_size;
        events
    }
}

// ---------------------------------------------------------------------------
// The files of a watched directory
// ---------------------------------------------------------------------------

/// The name suffix of a transcript file, as bytes.
pub open spec fn transcript_suffix() -> Seq<u8> {
    seq![46u8, 106u8, 115u8, 111u8, 110u8, 108u8]
}

/// Whether a file name (its bytes) has the extension `jsonl`: it ends in `.jsonl`
/// and something stands before that dot.
pub open spec fn names_transcript(name: Seq<u8>) -> bool {
    name.len() > transcript_suffix().len()
        && name.subrange(name.len() - transcript_suffix().len(), name.len() as int) == transcript_suffix()
}

/// Whether the file called `name` is a transcript, i.e. its extension is `jsonl`.
pub fn is_transcript_name(name: &[u8]) -> (r: bool)
    ensures
        r == names_transcript(name@),
{
    let suffix: [u8; 6] = [46u8, 106u8, 115u8, 111u8, 110u8, 108u8];
    let n = name.len();
    if n <= 6 {
        return false;
    }
    let start = n - 6;
    let mut i: usize = 0;
    while i < 6
        invariant
            i <= 6,
            n == name@.len(),
            start == n - 6,
            suffix@ == transcript_suffix(),
            forall|j: int| 0 <= j < i ==> name@[start + j] == suffix@[j],
        decreases 6 - i,
    {
        if name[start + i] != suffix[i] {
            proof {
                assert(name@.subrange(start as int, n as int)[i as int] != transcript_suffix()[i as int]);
            }
            return false;
        }
        i = i + 1;
    }
    assert(name@.subrange(start as int, n as int) =~= transcript_suffix());
    true
}

/// The files being watched, each known by the bytes of its path, in the order they
/// were found, and the id the next run found will get.
pub struct Watch {
    pub next_run_id: usize,
    pub files: Vec<(Vec<u8>, WatchedFile)>,
}

pub open spec fn watch_keys(files: Seq<(Vec<u8>, WatchedFile)>) -> Seq<Seq<u8>> {
    files.map_values(|e: (Vec<u8>, WatchedFile)| e.0@)
}

impl Watch {
    pub open spec fn keys(&self) -> Seq<Seq<u8>> {
        watch_keys(self.files@)
    }

    /// No file is watched twice, and every watched run's id was handed out.
    pub open spec fn wf(&self) -> bool {
        &&& self.keys().no_duplicates()
        &&& forall|i: int| 0 <= i < self.files@.len() ==> (#[trigger] self.files@[i]).1.run_id < self.next_run_id
    }

    /// Nothing watched yet; the first run found gets id 0.
    pub fn new() -> (r: Watch)
        ensures
            r.wf(),
            r.keys().len() == 0,
            r.next_run_id == 0,
    {
        let r = Watch { next_run_id: 0, files: Vec::new() };
        assert(r.keys() =~= Seq::<Seq<u8>>::empty());
        r
    }

    /// Where the file with path `key` is watched, if it is.
    pub fn position(&self, key: &Vec<u8>) -> (r: Option<usize>)
        ensures
            match r {
                Some(i) => i < self.keys().len() && self.keys()[i as int] == key@,
                None => !self.keys().contains(key@),
            },
    {
        let mut i: usize = 0;
        while i < self.files.len()
            invariant
                i <= self.files@.len(),
                forall|j: int| 0 <= j < i ==> self.keys()[j] != key@,
            decreases self.files.len() - i,
        {
            if same_bytes(&self.files[i].0, key) {
                return Some(i);
            }
            i = i + 1;
        }
        proof {
            if self.keys().contains(key@) {
                let j = choose|j: int| 0 <= j < self.keys().len() && self.keys()[j] == key@;
                assert(self.keys()[j] != key@);
            }
        }
        None
    }

    /// Hands out the id of a newly found run.
    pub fn next_id(&mut self) -> (r: usize)
        requires
            old(self).wf(),
            old(self).next_run_id < usize::MAX,
        ensures
            r == old(self).next_run_id,
            final(self).next_run_id == old(self).next_run_id + 1,
            final(self).files@ == old(self).files@,
            final(self).wf(),
    {
        let r = self.next_run_id;
        self.next_run_id = self.next_run_id + 1;
        r
    }

    /// Starts watching a newly found file.
    pub fn track(&mut self, key: Vec<u8>, file: WatchedFile)
        requires
            old(self).wf(),
            !old(self).keys().contains(key@),
            file.run_id < old(self).next_run_id,
        ensures
            final(self).wf(),
            final(self).keys() == old(self).keys().push(key@),
            final(self).next_run_id == old(self).next_run_id,
            final(self).files@.drop_last() == old(self).files@,
    {
        let ghost k = key@;
        self.files.push((key, file));
        proof {
            assert(self.keys() =~= old(self).keys().push(k));
            assert(self.files@.drop_last() =~= old(self).files@);
            assert forall|i: int, j: int| 0 <= i < j < self.keys().len() implies self.keys()[i] != self.keys()[j] by {
                if j == self.keys().len() - 1 {
                    assert(old(self).keys()[i] == self.keys()[i]);
                }
            }
        }
    }

    /// Forgets the files that are no longer among `current`, keeping the order of
    /// the others.
    pub fn prune(&mut self, current: &Vec<Vec<u8>>)
        requires
            old(self).wf(),
        ensures
            final(self).wf(),
            final(self).next_run_id == old(self).next_run_id,
            final(self).keys() == old(self).keys().filter(listed_in(key_views(current@))),
    {
        let ghost pred = listed_in(key_views(current@));
        let ghost old_keys = self.keys();
        let ghost bound = self.next_run_id;
        let mut kept: Vec<(Vec<u8>, WatchedFile)> = Vec::new();
        let mut files: Vec<(Vec<u8>, WatchedFile)> = Vec::new();
        std::mem::swap(&mut files, &mut self.files);
        let total = files.len();
        let ghost all = files@;
        assert(watch_keys(all) == old_keys);
        let mut rest: Vec<(Vec<u8>, WatchedFile)> = Vec::new();
        while files.len() > 0
            invariant
                rest@.len() + files@.len() == all.len(),
                files@ == all.take(files@.len() as int),
                forall|j: int| 0 <= j < rest@.len() ==> rest@[j] == all[all.len() - 1 - j],
            decreases files.len(),
        {
            let ghost n = files@.len();
            let e = files.pop().unwrap();
            proof {
                assert(e == all[n - 1]);
                assert(files@ =~= all.take(files@.len() as int));
            }
            rest.push(e);
        }
        let mut i: usize = 0;
        while rest.len() > 0
            invariant
                i + rest@.len() == all.len(),
                all.len() == total,
                forall|j: int| 0 <= j < rest@.len() ==> rest@[j] == all[all.len() - 1 - j],
                watch_keys(all) == old_keys,
                old_keys.no_duplicates(),
                forall|m: int| 0 <= m < all.len() ==> (#[trigger] all[m]).1.run_id < bound,
                pred == listed_in(key_views(current@)),
                watch_keys(kept@) == watch_keys(all.take(i as int)).filter(pred),
                watch_keys(kept@).no_duplicates(),
                forall|j: int| 0 <= j < kept@.len() ==> (#[trigger] kept@[j]).1.run_id < bound,
                forall|j: int| 0 <= j < kept@.len() ==> exists|m: int| 0 <= m < i && #[trigger] kept@[j] == all[m],
            decreases rest.len(),
        {
            let e = rest.pop().unwrap();
            proof {
                assert(e == all[i as int]);
            }
            let keep = contains_key(current, &e.0);
            let ghost before = kept@;
            if keep {
                kept.push(e);
            }
            proof {
                let t = all.take(i + 1);
                assert(t =~= all.take(i as int).push(all[i as int]));
                assert(watch_keys(t) =~= watch_keys(all.take(i as int)).push(all[i as int].0@));
                watch_keys(all.take(i as int)).lemma_filter_push(all[i as int].0@, pred);
                assert(pred(e.0@) == keep);
                if keep {
                    assert(watch_keys(kept@) =~= watch_keys(before).push(e.0@));
                    assert forall|a: int, b: int| 0 <= a < b < watch_keys(kept@).len() implies watch_keys(kept@)[a] != watch_keys(kept@)[b] by {
                        if b == watch_keys(kept@).len() - 1 {
                            let m = choose|m: int| 0 <= m < i && before[a] == all[m];
                            assert(watch_keys(before)[a] == old_keys[m]);
                            assert(e.0@ == old_keys[i as int]);
                        } else {
                            assert(watch_keys(kept@)[a] == watch_keys(before)[a]);
                            assert(watch_keys(kept@)[b] == watch_keys(before)[b]);
                        }
                    }
                    assert forall|j: int| 0 <= j < kept@.len() implies exists|m: int| 0 <= m < i + 1 && #[trigger] kept@[j] == all[m] by {
                        if j < before.len() {
                            let m = choose|m: int| 0 <= m < i && before[j] == all[m];
                            assert(kept@[j] == all[m]);
                        } else {
                            assert(kept@[j] == all[i as int]);
                        }
                    }
                } else {
                    assert(watch_keys(kept@) =~= watch_keys(before));
                    assert forall|j: int| 0 <= j < kept@.len() implies exists|m: int| 0 <= m < i + 1 && #[trigger] kept@[j] == all[m] by {
                        let m = choose|m: int| 0 <= m < i && before[j] == all[m];
                        assert(kept@[j] == all[m]);
                    }
                }
            }
            i = i + 1;
        }
        proof {
            assert(all.take(all.len() as int) =~= all);
        }
        self.files = kept;
    }
}

/// The paths given, each as its bytes.
pub open spec fn key_views(keys: Seq<Vec<u8>>) -> Seq<Seq<u8>> {
    keys.map_values(|c: Vec<u8>| c@)
}

/// Whether a path is among `keys`.
pub open spec fn listed_in(keys: Seq<Seq<u8>>) -> spec_fn(Seq<u8>) -> bool {
    |k: Seq<u8>| keys.contains(k)
}

fn same_bytes(a: &Vec<u8>, b: &Vec<u8>) -> (r: bool)
    ensures
        r == (a@ == b@),
{
    if a.len() != b.len() {
        return false;
    }
    let mut i: usize = 0;
    while i < a.len()
        invariant
            i <= a@.len(),
            a@.len() == b@.len(),
            forall|j: int| 0 <= j < i ==> a@[j] == b@[j],
        decreases a.len() - i,
    {
        if a[i] != b[i] {
            return false;
        }
        i = i + 1;
    }
    assert(a@ =~= b@);
    true
}

fn contains_key(keys: &Vec<Vec<u8>>, key: &Vec<u8>) -> (r: bool)
    ensures
        r == key_views(keys@).contains(key@),
{
    let ghost ks = key_views(keys@);
    let mut i: usize = 0;
    while i < keys.len()
        invariant
            i <= keys@.len(),
            ks == key_views(keys@),
            forall|j: int| 0 <= j < i ==> ks[j] != key@,
        decreases keys.len() - i,
    {
        if same_bytes(&keys[i], key) {
            assert(ks[i as int] == key@);
            return true;
        }
        i = i + 1;
    }
    proof {
        if ks.contains(key@) {
            let j = choose|j: int| 0 <= j < ks.len() && ks[j] == key@;
            assert(ks[j] != key@);
        }
    }
    false
}

/// How many sub-agent starts a list of items holds.
pub open spec fn agent_starts(items: Seq<ItemModel>) -> nat
    decreases items.len(),
{
    if items.len() == 0 {
        0
    } else {
        agent_starts(items.drop_last()) + if items.last() is SubagentStart {
            1nat
        } else {
            0nat
        }
    }
}

/// How many tool calls a list of items holds.
pub open spec fn tool_uses_in(items: Seq<ItemModel>) -> nat
    decreases items.len(),
{
    if items.len() == 0 {
        0
    } else {
        tool_uses_in(items.drop_last()) + if items.last() is ToolUse {
            1nat
        } else {
            0nat
        }
    }
}

proof fn lemma_count_items(s: StatsModel, items: Seq<ItemModel>)
    ensures
        count_items(s, items).subagent_spawns == if s.subagent_spawns + agent_starts(items) > usize::MAX {
            usize::MAX as int
        } else {
            s.subagent_spawns + agent_starts(items)
        },
        count_items(s, items).tool_calls == if s.tool_calls + tool_uses_in(items) > usize::MAX {
            usize::MAX as int
        } else {
            s.tool_calls + tool_uses_in(items)
        },
    decreases items.len(),
{
    if items.len() > 0 {
        lemma_count_items(s, items.drop_last());
    }
}

/// A parsed line adds to the batch's counts one sub-agent spawn for each sub-agent
/// start among its items and one tool call for each tool call, saturating at the
/// largest count.
pub proof fn law_batch_counts_agents_and_tools(b: BatchModel, items: Seq<ItemModel>, meta: MetaModel, run_id: usize)
    ensures
        batch_parsed(b, items, meta, run_id).stats.subagent_spawns == if b.stats.subagent_spawns + agent_starts(items)
            > usize::MAX {
            usize::MAX as int
        } else {
            b.stats.subagent_spawns + agent_starts(items)
        },
        batch_parsed(b, items, meta, run_id).stats.tool_calls == if b.stats.tool_calls + tool_uses_in(items)
            > usize::MAX {
            usize::MAX as int
        } else {
            b.stats.tool_calls + tool_uses_in(items)
        },
{
    lemma_count_items(b.stats, items);
}

} // verus!
