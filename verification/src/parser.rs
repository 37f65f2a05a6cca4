//! Reading `stream-json` transcript lines.
use crate::json::{
    append_str, as_array, as_bool, as_number, as_str, as_u64, field, field_opt, json_accepts,
    json_text, lemma_entry_models_index, lemma_models_index, lemma_models_len, models, opt_model,
    or_default, parse_json, json_document, str_eq, str_field, Json, JsonNumber, JsonValue, Num,
};
use crate::run::{
    items_model, now, opt_result, opt_str, parse_rfc3339, rfc3339_instant, sat_add, strs_model, zero_stats,
    ItemModel, RunStats, SessionResult, SessionResultModel, StatsModel, Timestamp, TranscriptItem,
};
use vstd::utf8::encode_utf8;
use crate::text::{byte_prefix, copy_str, truncate_str};
use vstd::prelude::*;

verus! {

/// Metadata extracted from a line that applies to the run, not the transcript.
pub struct LineMeta {
    pub session_id: Option<String>,
    pub session_result: Option<SessionResult>,
    pub stats_delta: RunStats,
    pub timestamp: Option<Timestamp>,
}

/// Result of parsing a single JSONL line.
pub enum ParseResult {
    /// Recognized event with transcript items and metadata
    Parsed(Vec<TranscriptItem>, LineMeta),
    /// Intentionally skipped
    Skipped,
    /// Malformed JSON or missing required fields
    Error(String),
}

/// The transcript formats this viewer reads.
#[derive(Clone, Copy, Debug, PartialEq, Eq, Structural)]
pub enum Format {
    ClaudeCode,
    Codex,
}

/// A reader of one transcript format.
pub trait TranscriptParser {
    fn parse_line(&self, line: &str) -> ParseResult;
}

/// The `stream-json` format.
pub struct ClaudeCodeParser;

pub struct MetaModel {
    pub session_id: Option<Seq<char>>,
    pub session_result: Option<SessionResultModel>,
    pub stats_delta: StatsModel,
    pub timestamp: Option<Timestamp>,
}

pub enum Outcome {
    Parsed(Seq<ItemModel>, MetaModel),
    Skipped,
    Error(Seq<char>),
}

impl Default for LineMeta {
    /// No session id, no result, empty statistics and no timestamp.
    fn default() -> (r: LineMeta)
        ensures
            r.model() == meta_with_session(None),
    {
        LineMeta { session_id: None, session_result: None, stats_delta: RunStats::new(), timestamp: None }
    }
}

impl LineMeta {
    pub open spec fn model(&self) -> MetaModel {
        MetaModel {
            session_id: opt_str(self.session_id),
            session_result: opt_result(self.session_result),
            stats_delta: self.stats_delta.model(),
            timestamp: self.timestamp,
        }
    }
}

impl ParseResult {
    pub open spec fn model(&self) -> Outcome {
        match self {
            ParseResult::Parsed(items, meta) => Outcome::Parsed(items_model(items@), meta.model()),
            ParseResult::Skipped => Outcome::Skipped,
            ParseResult::Error(e) => Outcome::Error(e@),
        }
    }
}

/// Metadata with only the session id set.
pub open spec fn meta_with_session(session_id: Option<Seq<char>>) -> MetaModel {
    MetaModel { session_id, session_result: None, stats_delta: zero_stats(), timestamp: None }
}

/// The instant written in the string member `key`.
pub open spec fn timestamp_field(v: Json, key: Seq<char>) -> Option<Timestamp> {
    match str_field(v, key) {
        Some(s) => rfc3339_instant(s),
        None => None,
    }
}

// ---------------------------------------------------------------------------
// Specification of the stream-json format
// ---------------------------------------------------------------------------

/// Tool names listed in `init`: strings, or objects with a string `name`.
pub open spec fn tool_names(tools: Seq<Json>) -> Seq<Seq<char>>
    decreases tools.len(),
{
    if tools.len() == 0 {
        Seq::empty()
    } else {
        let rest = tool_names(tools.drop_last());
        let t = tools.last();
        match as_str(Some(t)) {
            Some(s) => rest.push(s),
            None => match str_field(t, "name"@) {
                Some(n) => rest.push(n),
                None => rest,
            },
        }
    }
}

/// The items of a `system` line.
pub open spec fn system_items(v: Json, timestamp: Option<Timestamp>, now: Timestamp) -> Seq<
    ItemModel,
> {
    let subtype = or_default(str_field(v, "subtype"@), ""@);
    if subtype == "init"@ {
        seq![
            ItemModel::SessionStart {
                model: or_default(str_field(v, "model"@), ""@),
                tools: match as_array(field(v, "tools"@)) {
                    Some(ts) => tool_names(ts),
                    None => Seq::empty(),
                },
                timestamp: match timestamp {
                    Some(t) => t,
                    None => now,
                },
            },
        ]
    } else if subtype == "task_started"@ {
        seq![
            ItemModel::SubagentStart {
                description: or_default(str_field(v, "description"@), ""@),
                task_id: or_default(str_field(v, "task_id"@), ""@),
            },
        ]
    } else if subtype == "task_progress"@ {
        seq![
            ItemModel::SubagentProgress {
                description: or_default(str_field(v, "description"@), ""@),
                tool_name: str_field(v, "last_tool_name"@),
            },
        ]
    } else if subtype == "task_notification"@ {
        seq![
            ItemModel::SubagentEnd {
                summary: or_default(str_field(v, "summary"@), ""@),
                status: or_default(str_field(v, "status"@), ""@),
                cost_usd: None,
                duration_ms: as_u64(field_opt(field(v, "usage"@), "duration_ms"@)),
                tool_uses: as_u64(field_opt(field(v, "usage"@), "tool_uses"@)),
                total_tokens: as_u64(field_opt(field(v, "usage"@), "total_tokens"@)),
            },
        ]
    } else {
        let d = or_default(str_field(v, "summary"@), json_text(v));
        seq![
            ItemModel::SystemEvent {
                label: subtype,
                detail: if d.len() == 0 {
                    json_text(v)
                } else {
                    d
                },
            },
        ]
    }
}

/// The first member of an object, as `key=value`; `None` for an empty object or a non-object.
pub open spec fn first_member_summary(input: Json) -> Option<Seq<char>> {
    match input {
        Json::Object(entries) => if entries.len() == 0 {
            None
        } else {
            let key = entries[0].0;
            let val = entries[0].1;
            let s = or_default(as_str(Some(val)), ""@);
            Some(
                key + seq!['='] + if s.len() > 0 {
                    s
                } else {
                    json_text(val)
                },
            )
        },
        _ => None,
    }
}

/// The one-line summary of a stream-json tool call.
pub open spec fn tool_summary(name: Seq<char>, input: Option<Json>) -> Seq<char> {
    match input {
        None => name,
        Some(inp) => {
            let specific = if name == "Read"@ || name == "Edit"@ || name == "Write"@ {
                str_field(inp, "file_path"@)
            } else if name == "Bash"@ {
                match str_field(inp, "command"@) {
                    Some(c) => Some(byte_prefix(c, 80)),
                    None => None,
                }
            } else if name == "Grep"@ || name == "Glob"@ {
                str_field(inp, "pattern"@)
            } else {
                None
            };
            match specific {
                Some(s) => s,
                None => match first_member_summary(inp) {
                    Some(s) => s,
                    None => name,
                },
            }
        },
    }
}

/// The transcript item of one content block of an assistant message, if any.
pub open spec fn assistant_block_item(block: Json) -> Option<ItemModel> {
    let t = or_default(str_field(block, "type"@), ""@);
    if t == "text"@ {
        Some(ItemModel::AssistantText { text: or_default(str_field(block, "text"@), ""@), is_partial: false })
    } else if t == "tool_use"@ {
        let name = or_default(str_field(block, "name"@), ""@);
        let input = field(block, "input"@);
        Some(ItemModel::ToolUse { name, summary: tool_summary(name, input), input })
    } else if t == "thinking"@ {
        let text = or_default(str_field(block, "text"@), ""@);
        if text.len() > 0 {
            Some(ItemModel::Thinking { text })
        } else {
            None
        }
    } else {
        None
    }
}

pub open spec fn assistant_items(blocks: Seq<Json>) -> Seq<ItemModel>
    decreases blocks.len(),
{
    if blocks.len() == 0 {
        Seq::empty()
    } else {
        match assistant_block_item(blocks.last()) {
            Some(item) => assistant_items(blocks.drop_last()).push(item),
            None => assistant_items(blocks.drop_last()),
        }
    }
}

/// UTF-8 bytes of the text blocks, summed (saturating).
pub open spec fn assistant_text_bytes(blocks: Seq<Json>) -> usize
    decreases blocks.len(),
{
    if blocks.len() == 0 {
        0
    } else {
        let b = blocks.last();
        let more = if or_default(str_field(b, "type"@), ""@) == "text"@ {
            encode_utf8(or_default(str_field(b, "text"@), ""@)).len() as usize
        } else {
            0
        };
        sat_add(assistant_text_bytes(blocks.drop_last()), more)
    }
}

/// Number of tool_use blocks (saturating).
pub open spec fn assistant_tool_calls(blocks: Seq<Json>) -> usize
    decreases blocks.len(),
{
    if blocks.len() == 0 {
        0
    } else {
        let more: usize = if or_default(str_field(blocks.last(), "type"@), ""@) == "tool_use"@ {
            1
        } else {
            0
        };
        sat_add(assistant_tool_calls(blocks.drop_last()), more)
    }
}

/// The content blocks of a message-carrying line.
pub open spec fn message_content(v: Json) -> Option<Seq<Json>> {
    as_array(field_opt(field(v, "message"@), "content"@))
}

/// The first block whose `type` is `tool_result`.
pub open spec fn first_tool_result(blocks: Seq<Json>) -> Option<Json>
    decreases blocks.len(),
{
    if blocks.len() == 0 {
        None
    } else if str_field(blocks[0], "type"@) == Some("tool_result"@) {
        Some(blocks[0])
    } else {
        first_tool_result(blocks.drop_first())
    }
}

/// The text of the first tool_result block of a user line.
pub open spec fn tool_result_content(v: Json) -> Option<Seq<char>> {
    match message_content(v) {
        Some(blocks) => as_str(field_opt(first_tool_result(blocks), "content"@)),
        None => None,
    }
}

/// The items of a `user` line: one tool result when the line carries
/// `tool_use_result`, none otherwise.
pub open spec fn user_items(v: Json) -> Seq<ItemModel> {
    match field(v, "tool_use_result"@) {
        None => Seq::empty(),
        Some(tur) => {
            let tool_name = if field(tur, "file"@) is Some {
                "Read"@
            } else {
                or_default(str_field(tur, "tool_name"@), "unknown"@)
            };
            let content = tool_result_content(v);
            let summary = match as_str(field_opt(field(tur, "file"@), "filePath"@)) {
                Some(p) => p,
                None => match content {
                    Some(c) => byte_prefix(c, 80),
                    None => tool_name,
                },
            };
            seq![ItemModel::ToolResult { tool_name, summary, content, duration_ms: None }]
        },
    }
}

pub open spec fn zero_num() -> Num {
    Num { text: seq!['0'], unsigned: Some(0) }
}

/// The unsigned number under `key` of an optional object.
fn usage_u64(usage: Option<&JsonValue>, key: &str) -> (r: Option<u64>)
    ensures
        r == as_u64(field_opt(opt_model(usage), key@)),
{
    match usage {
        Some(u) => match u.get(key) {
            Some(n) => n.as_u64(),
            None => None,
        },
        None => None,
    }
}

/// The tokens a `result` line's `usage` reports: its input and output tokens,
/// summed (saturating).
pub open spec fn result_tokens(v: Json) -> u64 {
    let usage = field(v, "usage"@);
    let input = match as_u64(field_opt(usage, "input_tokens"@)) {
        Some(x) => x,
        None => 0,
    };
    let output = match as_u64(field_opt(usage, "output_tokens"@)) {
        Some(x) => x,
        None => 0,
    };
    if input + output > u64::MAX {
        u64::MAX
    } else {
        (input + output) as u64
    }
}

/// The session result reported by a `result` line.
pub open spec fn session_result_of(v: Json) -> SessionResultModel {
    SessionResultModel {
        subtype: or_default(str_field(v, "subtype"@), "unknown"@),
        is_error: match as_bool(field(v, "is_error"@)) {
            Some(b) => b,
            None => false,
        },
        duration_ms: match as_u64(field(v, "duration_ms"@)) {
            Some(n) => n,
            None => 0,
        },
        num_turns: match as_u64(field(v, "num_turns"@)) {
            Some(n) => n,
            None => 0,
        },
        total_cost_usd: match as_number(field(v, "total_cost_usd"@)) {
            Some(n) => n,
            None => zero_num(),
        },
        stop_reason: str_field(v, "stop_reason"@),
        result_text: str_field(v, "result"@),
    }
}

/// What one stream-json line reads as, given the current instant `now`.
pub open spec fn claude_outcome(v: Json, now: Timestamp) -> Outcome {
    match str_field(v, "type"@) {
        None => Outcome::Error("Missing 'type' field"@),
        Some(t) => {
            let meta = meta_with_session(str_field(v, "session_id"@));
            if t == "stream_event"@ {
                Outcome::Skipped
            } else if t == "system"@ {
                let ts = timestamp_field(v, "timestamp"@);
                Outcome::Parsed(system_items(v, ts, now), MetaModel { timestamp: ts, ..meta })
            } else if t == "assistant"@ {
                match message_content(v) {
                    None => Outcome::Parsed(Seq::empty(), meta),
                    Some(blocks) => Outcome::Parsed(
                        assistant_items(blocks),
                        MetaModel {
                            stats_delta: StatsModel {
                                assistant_chars: assistant_text_bytes(blocks),
                                tool_calls: assistant_tool_calls(blocks),
                                ..zero_stats()
                            },
                            ..meta
                        },
                    ),
                }
            } else if t == "user"@ {
                let items = user_items(v);
                if items.len() == 0 {
                    Outcome::Skipped
                } else {
                    Outcome::Parsed(items, meta)
                }
            } else if t == "result"@ {
                let r = session_result_of(v);
                Outcome::Parsed(
                    Seq::empty(),
                    MetaModel {
                        session_result: Some(r),
                        stats_delta: StatsModel {
                            cost_usd: Some(r.total_cost_usd),
                            num_turns: r.num_turns,
                            token_count: result_tokens(v),
                            ..zero_stats()
                        },
                        ..meta
                    },
                )
            } else if t == "rate_limit_event"@ {
                Outcome::Parsed(
                    seq![
                        ItemModel::SystemEvent {
                            label: "rate_limit"@,
                            detail: or_default(
                                as_str(field_opt(field(v, "rate_limit_info"@), "status"@)),
                                "unknown"@,
                            ),
                        },
                    ],
                    meta,
                )
            } else {
                Outcome::Parsed(seq![ItemModel::SystemEvent { label: t, detail: json_text(v) }], meta)
            }
        },
    }
}

// ---------------------------------------------------------------------------
// Implementation
// ---------------------------------------------------------------------------

/// The instant written in the string member `key` of `v`.
pub fn parse_timestamp(v: &JsonValue, key: &str) -> (r: Option<Timestamp>)
    ensures
        r == timestamp_field(v.model(), key@),
{
    match v.get_str(key) {
        Some(s) => parse_rfc3339(s.as_str()),
        None => None,
    }
}


fn push_item(items: &mut Vec<TranscriptItem>, item: TranscriptItem)
    ensures
        items_model(final(items)@) == items_model(old(items)@).push(item.model()),
{
    items.push(item);
    assert(items_model(items@) =~= items_model(old(items)@).push(item.model()));
}

fn one_item(item: TranscriptItem) -> (r: Vec<TranscriptItem>)
    ensures
        items_model(r@) == seq![item.model()],
{
    let mut v: Vec<TranscriptItem> = Vec::new();
    push_item(&mut v, item);
    assert(items_model(Seq::<TranscriptItem>::empty()) =~= Seq::<ItemModel>::empty());
    v
}

fn tool_name_list(tools: &Vec<JsonValue>) -> (r: Vec<String>)
    ensures
        strs_model(r@) == tool_names(models(tools@)),
{
    let ghost ms = models(tools@);
    proof { lemma_models_len(tools@); }
    let mut out: Vec<String> = Vec::new();
    let mut i: usize = 0;
    while i < tools.len()
        invariant
            0 <= i <= tools.len(),
            ms == models(tools@),
            ms.len() == tools.len(),
            strs_model(out@) == tool_names(ms.take(i as int)),
        decreases tools.len() - i,
    {
        proof {
            lemma_models_index(tools@, i as int);
            let t = ms.take(i + 1);
            assert(t.drop_last() =~= ms.take(i as int));
            assert(t.last() == tools@[i as int].model());
        }
        let item = &tools[i];
        let ghost prev = out@;
        match item.as_string() {
            Some(s) => {
                out.push(s.clone());
            },
            None => {
                match item.get_str("name") {
                    Some(n) => {
                        out.push(n.clone());
                    },
                    None => {},
                }
            },
        }
        assert(strs_model(out@) =~= tool_names(ms.take(i + 1)));
        i = i + 1;
    }
    assert(ms.take(tools.len() as int) =~= ms);
    out
}

/// The items of a `system` line; records the line's timestamp in `meta`.
pub fn parse_system(v: &JsonValue, meta: &mut LineMeta, now: Timestamp) -> (r: Vec<
    TranscriptItem,
>)
    ensures
        final(meta).model() == (MetaModel {
            timestamp: timestamp_field(v.model(), "timestamp"@),
            ..old(meta).model()
        }),
        items_model(r@) == system_items(v.model(), timestamp_field(v.model(), "timestamp"@), now),
{
    let subtype = v.str_or("subtype", "");
    meta.timestamp = parse_timestamp(v, "timestamp");
    let s = subtype.as_str();
    if str_eq(s, "init") {
        let model = v.str_or("model", "");
        let tools = match v.get("tools") {
            Some(t) => match t.as_array() {
                Some(arr) => tool_name_list(arr),
                None => Vec::new(),
            },
            None => Vec::new(),
        };
        proof {
            assert(strs_model(Seq::<String>::empty()) =~= Seq::<Seq<char>>::empty());
        }
        let timestamp = match meta.timestamp {
            Some(t) => t,
            None => now,
        };
        one_item(TranscriptItem::SessionStart { model, tools, timestamp })
    } else if str_eq(s, "task_started") {
        let description = v.str_or("description", "");
        let task_id = v.str_or("task_id", "");
        one_item(TranscriptItem::SubagentStart { description, task_id })
    } else if str_eq(s, "task_progress") {
        let description = v.str_or("description", "");
        let tool_name = v.str_opt("last_tool_name");
        one_item(TranscriptItem::SubagentProgress { description, tool_name })
    } else if str_eq(s, "task_notification") {
        let summary = v.str_or("summary", "");
        let status = v.str_or("status", "");
        let usage = v.get("usage");
        let duration_ms = usage_u64(usage, "duration_ms");
        let tool_uses = usage_u64(usage, "tool_uses");
        let total_tokens = usage_u64(usage, "total_tokens");
        one_item(
            TranscriptItem::SubagentEnd { summary, status, cost_usd: None, duration_ms, tool_uses, total_tokens },
        )
    } else {
        let detail = match v.get_str("summary") {
            Some(d) => d.clone(),
            None => v.to_text(),
        };
        let detail = if detail.as_str().is_empty() {
            v.to_text()
        } else {
            detail
        };
        one_item(TranscriptItem::SystemEvent { label: subtype, detail })
    }
}

fn tool_summary_specific(name: &str, input: &JsonValue) -> (r: Option<String>)
    ensures
        opt_str(r) == (if name@ == "Read"@ || name@ == "Edit"@ || name@ == "Write"@ {
            str_field(input.model(), "file_path"@)
        } else if name@ == "Bash"@ {
            match str_field(input.model(), "command"@) {
                Some(c) => Some(byte_prefix(c, 80)),
                None => None,
            }
        } else if name@ == "Grep"@ || name@ == "Glob"@ {
            str_field(input.model(), "pattern"@)
        } else {
            None
        }),
{
    if str_eq(name, "Read") || str_eq(name, "Edit") || str_eq(name, "Write") {
        input.str_opt("file_path")
    } else if str_eq(name, "Bash") {
        match input.get_str("command") {
            Some(c) => Some(truncate_str(c.as_str(), 80)),
            None => None,
        }
    } else if str_eq(name, "Grep") || str_eq(name, "Glob") {
        input.str_opt("pattern")
    } else {
        None
    }
}

/// `key=value` for the first member of an object.
pub fn first_member_text(input: &JsonValue) -> (r: Option<String>)
    ensures
        opt_str(r) == first_member_summary(input.model()),
{
    match input {
        JsonValue::Object(entries) => {
            if entries.len() == 0 {
                None
            } else {
                proof { lemma_entry_models_index(entries@, 0); }
                let key = &entries[0].0;
                let val = &entries[0].1;
                let mut out = key.clone();
                crate::text::push_char(&mut out, '=');
                let vs = match val.as_string() {
                    Some(s) => s.as_str(),
                    None => "",
                };
                if !vs.is_empty() {
                    append_str(&mut out, vs);
                } else {
                    val.write_text(&mut out);
                }
                Some(out)
            }
        },
        _ => None,
    }
}

/// The one-line summary of a stream-json tool call.
pub fn extract_tool_summary(name: &str, input: Option<&JsonValue>) -> (r: String)
    ensures
        r@ == tool_summary(name@, opt_model(input)),
{
    match input {
        None => name.to_owned(),
        Some(inp) => {
            match tool_summary_specific(name, inp) {
                Some(s) => s,
                None => match first_member_text(inp) {
                    Some(s) => s,
                    None => name.to_owned(),
                },
            }
        },
    }
}

/// The items of an `assistant` line; counts text bytes and tool calls in `meta`.
pub fn parse_assistant(v: &JsonValue, meta: &mut LineMeta) -> (r: Vec<TranscriptItem>)
    ensures
        match message_content(v.model()) {
            None => items_model(r@) == Seq::<ItemModel>::empty() && final(meta).model()
                == old(meta).model(),
            Some(blocks) => items_model(r@) == assistant_items(blocks) && final(meta).model() == (
            MetaModel {
                stats_delta: StatsModel {
                    assistant_chars: sat_add(
                        old(meta).stats_delta.assistant_chars,
                        assistant_text_bytes(blocks),
                    ),
                    tool_calls: sat_add(old(meta).stats_delta.tool_calls, assistant_tool_calls(blocks)),
                    ..old(meta).model().stats_delta
                },
                ..old(meta).model()
            }),
        },
{
    let content = match v.get("message") {
        Some(m) => match m.get("content") {
            Some(c) => c.as_array(),
            None => None,
        },
        None => None,
    };
    let blocks = match content {
        Some(arr) => arr,
        None => {
            let r: Vec<TranscriptItem> = Vec::new();
            assert(items_model(r@) =~= Seq::<ItemModel>::empty());
            return r;
        },
    };
    let ghost ms = models(blocks@);
    proof { lemma_models_len(blocks@); }
    let mut items: Vec<TranscriptItem> = Vec::new();
    assert(items_model(items@) =~= Seq::<ItemModel>::empty());
    let mut i: usize = 0;
    assert(ms.take(0) =~= Seq::<Json>::empty());
    while i < blocks.len()
        invariant
            0 <= i <= blocks.len(),
            ms == models(blocks@),
            ms.len() == blocks.len(),
            items_model(items@) == assistant_items(ms.take(i as int)),
            meta.stats_delta.assistant_chars == sat_add(
                old(meta).stats_delta.assistant_chars,
                assistant_text_bytes(ms.take(i as int)),
            ),
            meta.stats_delta.tool_calls == sat_add(
                old(meta).stats_delta.tool_calls,
                assistant_tool_calls(ms.take(i as int)),
            ),
            meta.model() == (MetaModel {
                stats_delta: StatsModel {
                    assistant_chars: meta.stats_delta.assistant_chars,
                    tool_calls: meta.stats_delta.tool_calls,
                    ..old(meta).model().stats_delta
                },
                ..old(meta).model()
            }),
        decreases blocks.len() - i,
    {
        proof {
            lemma_models_index(blocks@, i as int);
            let t = ms.take(i + 1);
            assert(t.drop_last() =~= ms.take(i as int));
            assert(t.last() == blocks@[i as int].model());
        }
        let block = &blocks[i];
        let block_type = block.str_or("type", "");
        let bt = block_type.as_str();
        if str_eq(bt, "text") {
            proof {
                reveal_strlit("text");
                reveal_strlit("tool_use");
                assert("text"@.len() == 4 && "tool_use"@.len() == 8);
                assert("text"@ != "tool_use"@);
            }
            let text = block.str_or("text", "");
            let n = text.as_str().len();
            meta.stats_delta.assistant_chars = meta.stats_delta.assistant_chars.saturating_add(n);
            push_item(&mut items, TranscriptItem::AssistantText { text, is_partial: false });
        } else if str_eq(bt, "tool_use") {
            let name = block.str_or("name", "");
            let input = match block.get("input") {
                Some(x) => Some(x.duplicate()),
                None => None,
            };
            let summary = extract_tool_summary(name.as_str(), block.get("input"));
            meta.stats_delta.tool_calls = meta.stats_delta.tool_calls.saturating_add(1);
            push_item(&mut items, TranscriptItem::ToolUse { name, summary, input });
        } else if str_eq(bt, "thinking") {
            let text = block.str_or("text", "");
            if !text.as_str().is_empty() {
                push_item(&mut items, TranscriptItem::Thinking { text });
            }
        }
        assert(meta.stats_delta.tool_calls == sat_add(
            old(meta).stats_delta.tool_calls,
            assistant_tool_calls(ms.take(i + 1)),
        ));
        i = i + 1;
    }
    assert(ms.take(blocks.len() as int) =~= ms);
    items
}

fn find_tool_result(v: &JsonValue) -> (r: Option<&JsonValue>)
    ensures
        opt_model(r) == match message_content(v.model()) {
            Some(blocks) => first_tool_result(blocks),
            None => None,
        },
{
    let content = match v.get("message") {
        Some(m) => match m.get("content") {
            Some(c) => c.as_array(),
            None => None,
        },
        None => None,
    };
    let blocks = match content {
        Some(arr) => arr,
        None => {
            return None;
        },
    };
    let ghost ms = models(blocks@);
    proof {
        lemma_models_len(blocks@);
        assert(ms.skip(0) =~= ms);
    }
    let mut i: usize = 0;
    while i < blocks.len()
        invariant
            0 <= i <= blocks.len(),
            ms == models(blocks@),
            ms.len() == blocks.len(),
            first_tool_result(ms) == first_tool_result(ms.skip(i as int)),
            message_content(v.model()) == Some(ms),
        decreases blocks.len() - i,
    {
        proof {
            lemma_models_index(blocks@, i as int);
            assert(ms.skip(i as int)[0] == ms[i as int]);
            assert(ms.skip(i as int).drop_first() =~= ms.skip(i + 1));
        }
        let is_result = match blocks[i].get_str("type") {
            Some(t) => str_eq(t.as_str(), "tool_result"),
            None => false,
        };
        if is_result {
            return Some(&blocks[i]);
        }
        i = i + 1;
    }
    None
}

/// The items of a `user` line.
pub fn parse_user(v: &JsonValue) -> (r: Vec<TranscriptItem>)
    ensures
        items_model(r@) == user_items(v.model()),
{
    let tur = match v.get("tool_use_result") {
        Some(t) => t,
        None => {
            let r: Vec<TranscriptItem> = Vec::new();
            assert(items_model(r@) =~= Seq::<ItemModel>::empty());
            return r;
        },
    };
    let file = tur.get("file");
    let tool_name = if file.is_some() {
        copy_str("Read")
    } else {
        tur.str_or("tool_name", "unknown")
    };
    let content: Option<String> = match find_tool_result(v) {
        Some(block) => block.str_opt("content"),
        None => None,
    };
    let path = match file {
        Some(f) => f.str_opt("filePath"),
        None => None,
    };
    let summary = match path {
        Some(p) => p,
        None => match &content {
            Some(c) => truncate_str(c.as_str(), 80),
            None => tool_name.clone(),
        },
    };
    one_item(TranscriptItem::ToolResult { tool_name, summary, content, duration_ms: None })
}

/// The session result of a `result` line, recorded in `meta` along with its cost.
pub fn parse_result_event(v: &JsonValue, meta: &mut LineMeta)
    ensures
        final(meta).model() == (MetaModel {
            session_result: Some(session_result_of(v.model())),
            stats_delta: StatsModel {
                cost_usd: Some(session_result_of(v.model()).total_cost_usd),
                num_turns: session_result_of(v.model()).num_turns,
                token_count: if result_tokens(v.model()) > 0 {
                    result_tokens(v.model())
                } else {
                    old(meta).stats_delta.token_count
                },
                ..old(meta).model().stats_delta
            },
            ..old(meta).model()
        }),
{
    let subtype = v.str_or("subtype", "unknown");
    let is_error = match v.get("is_error") {
        Some(b) => match b.as_bool() {
            Some(x) => x,
            None => false,
        },
        None => false,
    };
    let duration_ms = match v.get("duration_ms") {
        Some(n) => match n.as_u64() {
            Some(x) => x,
            None => 0,
        },
        None => 0,
    };
    let num_turns = match v.get("num_turns") {
        Some(n) => match n.as_u64() {
            Some(x) => x,
            None => 0,
        },
        None => 0,
    };
    let total_cost_usd = match v.get("total_cost_usd") {
        Some(JsonValue::Number(n)) => n.duplicate(),
        _ => JsonNumber::zero(),
    };
    let result = SessionResult {
        subtype,
        is_error,
        duration_ms,
        num_turns,
        total_cost_usd,
        stop_reason: v.str_opt("stop_reason"),
        result_text: v.str_opt("result"),
    };
    let usage = v.get("usage");
    let input = match usage_u64(usage, "input_tokens") {
        Some(x) => x,
        None => 0,
    };
    let output = match usage_u64(usage, "output_tokens") {
        Some(x) => x,
        None => 0,
    };
    let total = input.saturating_add(output);
    if total > 0 {
        meta.stats_delta.token_count = total;
    }
    meta.stats_delta.num_turns = result.num_turns;
    meta.stats_delta.cost_usd = Some(result.total_cost_usd.duplicate());
    meta.session_result = Some(result);
}

/// Reads one parsed stream-json line, given the current instant `now` (used for a
/// session start that carries no timestamp).
pub fn parse_value(v: &JsonValue, now: Timestamp) -> (r: ParseResult)
    ensures
        r.model() == claude_outcome(v.model(), now),
{
    let event_type = match v.get_str("type") {
        Some(t) => t,
        None => {
            return ParseResult::Error(copy_str("Missing 'type' field"));
        },
    };
    let mut meta = LineMeta {
        session_id: v.str_opt("session_id"),
        session_result: None,
        stats_delta: RunStats::new(),
        timestamp: None,
    };
    let t = event_type.as_str();
    if str_eq(t, "stream_event") {
        ParseResult::Skipped
    } else if str_eq(t, "system") {
        let items = parse_system(v, &mut meta, now);
        ParseResult::Parsed(items, meta)
    } else if str_eq(t, "assistant") {
        let items = parse_assistant(v, &mut meta);
        ParseResult::Parsed(items, meta)
    } else if str_eq(t, "user") {
        let items = parse_user(v);
        if items.len() == 0 {
            ParseResult::Skipped
        } else {
            ParseResult::Parsed(items, meta)
        }
    } else if str_eq(t, "result") {
        parse_result_event(v, &mut meta);
        let items: Vec<TranscriptItem> = Vec::new();
        assert(items_model(items@) =~= Seq::<ItemModel>::empty());
        ParseResult::Parsed(items, meta)
    } else if str_eq(t, "rate_limit_event") {
        let detail = match v.get("rate_limit_info") {
            Some(r) => r.str_or("status", "unknown"),
            None => copy_str("unknown"),
        };
        let item = TranscriptItem::SystemEvent { label: copy_str("rate_limit"), detail };
        ParseResult::Parsed(one_item(item), meta)
    } else {
        let item = TranscriptItem::SystemEvent { label: event_type.clone(), detail: v.to_text() };
        ParseResult::Parsed(one_item(item), meta)
    }
}

/// The message of a line that is not JSON: `JSON parse error: ` and serde_json's words.
pub open spec fn is_json_error_message(m: Seq<char>) -> bool {
    &&& m.len() >= 18
    &&& m.take(18) == "JSON parse error: "@
}

/// Reads one stream-json JSONL line.
pub fn parse_line(line: &str) -> (r: ParseResult)
    ensures
        !json_accepts(line@) ==> (r matches ParseResult::Error(m) && is_json_error_message(m@)),
        json_accepts(line@) ==> exists|now: Timestamp| r.model() == claude_outcome(json_document(line@), now),
{
    match parse_json(line) {
        Err(e) => {
            let mut m = copy_str("JSON parse error: ");
            let ghost prefix = m@;
            append_str(&mut m, e.as_str());
            proof {
                reveal_strlit("JSON parse error: ");
                assert(m@.take(18) =~= prefix);
            }
            ParseResult::Error(m)
        },
        Ok(v) => {
            let t = now();
            let r = parse_value(&v, t);
            assert(r.model() == claude_outcome(v.model(), t));
            r
        },
    }
}

impl TranscriptParser for ClaudeCodeParser {
    fn parse_line(&self, line: &str) -> (r: ParseResult)
        ensures
            !json_accepts(line@) ==> (r matches ParseResult::Error(m) && is_json_error_message(m@)),
            json_accepts(line@) ==> exists|now: Timestamp|
                r.model() == claude_outcome(json_document(line@), now),
    {
        parse_line(line)
    }
}

/// A user line that reports the file a tool read is summarised by that file's path,
/// whatever content the tool result carries: it reads as one tool result of `Read`
/// whose summary is the path.
pub proof fn law_user_result_names_the_file(v: Json, now: Timestamp, tur: Json, file: Json, path: Seq<char>)
    requires
        str_field(v, "type"@) == Some("user"@),
        field(v, "tool_use_result"@) == Some(tur),
        field(tur, "file"@) == Some(file),
        field(file, "filePath"@) == Some(Json::Str(path)),
    ensures
        match claude_outcome(v, now) {
            Outcome::Parsed(items, _) => items.len() == 1 && match items[0] {
                ItemModel::ToolResult { tool_name, summary, .. } => tool_name == "Read"@ && summary == path,
                _ => false,
            },
            _ => false,
        },
{
    reveal_strlit("user");
    reveal_strlit("stream_event");
    reveal_strlit("system");
    reveal_strlit("assistant");
    assert("user"@.len() == 4 && "system"@.len() == 6 && "assistant"@.len() == 9);
    assert("user"@ != "stream_event"@);
    assert("user"@ != "system"@);
    assert("user"@ != "assistant"@);
    assert(user_items(v).len() == 1);
}

/// A file tool's call is summarised by the file it names, a search tool's by its
/// pattern, and a call without input by the tool's name.
pub proof fn law_tool_summary_names_its_target(name: Seq<char>, inp: Json, target: Seq<char>)
    ensures
        tool_summary(name, None) == name,
        (name == "Read"@ || name == "Edit"@ || name == "Write"@) && str_field(inp, "file_path"@) == Some(target)
            ==> tool_summary(name, Some(inp)) == target,
        (name == "Grep"@ || name == "Glob"@) && str_field(inp, "pattern"@) == Some(target)
            ==> tool_summary(name, Some(inp)) == target,
{
    reveal_strlit("Read");
    reveal_strlit("Edit");
    reveal_strlit("Write");
    reveal_strlit("Bash");
    reveal_strlit("Grep");
    reveal_strlit("Glob");
    assert("Grep"@[1] != "Bash"@[1] && "Glob"@[1] != "Bash"@[1]);
    assert("Grep"@ != "Read"@ && "Grep"@ != "Edit"@ && "Grep"@.len() != "Write"@.len());
    assert("Glob"@ != "Read"@ && "Glob"@ != "Edit"@ && "Glob"@.len() != "Write"@.len());
}

} // verus!
