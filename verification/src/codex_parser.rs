//! Reading Codex CLI transcript lines: every event is `{ timestamp, type, payload }`.
use crate::json::{
    as_array, field, json_accepts, json_text, lemma_models_index, lemma_models_len, models,
    opt_model, or_default, parse_json, read_doc, json_document, str_eq, str_field, Json, JsonNumber, JsonValue,
};
use crate::parser::{
    extract_tool_summary, is_json_error_message, parse_timestamp, timestamp_field, tool_summary,
    zero_num, MetaModel, Outcome, LineMeta, ParseResult, TranscriptParser,
};
use crate::run::{
    items_model, now, zero_stats, ItemModel, RunStats, SessionResult, SessionResultModel,
    Timestamp, TranscriptItem,
};
use crate::text::{byte_prefix, copy_str, first_line, split_lines, truncate_str};
use vstd::prelude::*;

verus! {

/// Parser for Codex CLI's JSONL transcript format.
pub struct CodexParser;

// ---------------------------------------------------------------------------
// Specification
// ---------------------------------------------------------------------------

/// The summary of a Codex tool call, given the document its `arguments` string reads as.
pub open spec fn codex_tool_summary(name: Seq<char>, args: Option<Json>) -> Seq<char> {
    match args {
        None => name,
        Some(a) => {
            if name == "exec_command"@ && str_field(a, "cmd"@) is Some {
                byte_prefix(str_field(a, "cmd"@)->0, 80)
            } else if name == "spawn_agent"@ && str_field(a, "message"@) is Some {
                byte_prefix(str_field(a, "message"@)->0, 80)
            } else if name == "update_plan"@ {
                "update plan"@
            } else {
                tool_summary(name, Some(a))
            }
        },
    }
}

/// The result a `task_complete` message reports.
pub open spec fn task_complete_result(p: Json) -> SessionResultModel {
    SessionResultModel {
        subtype: "success"@,
        is_error: false,
        duration_ms: 0,
        num_turns: 0,
        total_cost_usd: zero_num(),
        stop_reason: Some("task_complete"@),
        result_text: str_field(p, "last_agent_message"@),
    }
}

/// The items of an `event_msg` payload (`None`: skipped), and the session result it reports.
pub open spec fn event_msg_items(p: Json) -> (Option<Seq<ItemModel>>, Option<SessionResultModel>) {
    let t = or_default(str_field(p, "type"@), ""@);
    if t == "user_message"@ {
        (Some(seq![ItemModel::UserMessage { text: or_default(str_field(p, "message"@), ""@) }]), None)
    } else if t == "agent_message"@ {
        (
            Some(
                seq![
                    ItemModel::AssistantText {
                        text: or_default(str_field(p, "message"@), ""@),
                        is_partial: false,
                    },
                ],
            ),
            None,
        )
    } else if t == "task_started"@ {
        (
            Some(
                seq![
                    ItemModel::SystemEvent {
                        label: "task_started"@,
                        detail: or_default(str_field(p, "collaboration_mode_kind"@), ""@),
                    },
                ],
            ),
            None,
        )
    } else if t == "task_complete"@ {
        let r = task_complete_result(p);
        (
            Some(
                seq![
                    ItemModel::RunResult {
                        is_error: false,
                        stop_reason: Some("task_complete"@),
                        num_turns: 0,
                        total_cost_usd: zero_num(),
                        duration_ms: 0,
                        result_text: r.result_text,
                    },
                ],
            ),
            Some(r),
        )
    } else if t == "token_count"@ {
        (None, None)
    } else {
        (Some(seq![ItemModel::SystemEvent { label: t, detail: json_text(p) }]), None)
    }
}

/// The non-empty `output_text` blocks of a message, as assistant text.
pub open spec fn output_texts(blocks: Seq<Json>) -> Seq<ItemModel>
    decreases blocks.len(),
{
    if blocks.len() == 0 {
        Seq::empty()
    } else {
        let b = blocks.last();
        let rest = output_texts(blocks.drop_last());
        let text = or_default(str_field(b, "text"@), ""@);
        if or_default(str_field(b, "type"@), ""@) == "output_text"@ && text.len() > 0 {
            rest.push(ItemModel::AssistantText { text, is_partial: false })
        } else {
            rest
        }
    }
}

/// The items of a `message` response item; `None` when it is skipped.
pub open spec fn message_items(p: Json) -> Option<Seq<ItemModel>> {
    let role = or_default(str_field(p, "role"@), ""@);
    if role == "developer"@ || role == "user"@ {
        None
    } else {
        match as_array(field(p, "content"@)) {
            None => None,
            Some(blocks) => {
                let items = output_texts(blocks);
                if items.len() == 0 {
                    None
                } else {
                    Some(items)
                }
            },
        }
    }
}

/// The text of the `arguments` member of a function call.
pub open spec fn call_arguments(p: Json) -> Seq<char> {
    or_default(str_field(p, "arguments"@), "{}"@)
}

/// The items of a `response_item` payload (`None`: skipped), given the document that a
/// function call's arguments read as.
pub open spec fn response_items(p: Json, args: Option<Json>) -> Option<Seq<ItemModel>> {
    let t = or_default(str_field(p, "type"@), ""@);
    if t == "reasoning"@ {
        None
    } else if t == "message"@ {
        message_items(p)
    } else if t == "function_call"@ {
        let name = or_default(str_field(p, "name"@), ""@);
        Some(
            seq![
                ItemModel::ToolUse {
                    name,
                    summary: codex_tool_summary(name, args),
                    input: args,
                },
            ],
        )
    } else if t == "function_call_output"@ {
        let output = or_default(str_field(p, "output"@), ""@);
        Some(
            seq![
                ItemModel::ToolResult {
                    tool_name: Seq::empty(),
                    summary: byte_prefix(output, 80),
                    content: Some(output),
                    duration_ms: None,
                },
            ],
        )
    } else if t == "custom_tool_call"@ {
        let name = or_default(str_field(p, "name"@), ""@);
        let input_text = or_default(str_field(p, "input"@), ""@);
        let status = or_default(str_field(p, "status"@), "unknown"@);
        let first = match first_line(input_text) {
            Some(l) => l,
            None => name,
        };
        let summary = byte_prefix(first, 80);
        Some(
            seq![
                ItemModel::ToolUse { name, summary, input: None },
                ItemModel::ToolResult {
                    tool_name: name,
                    summary: status,
                    content: Some(input_text),
                    duration_ms: None,
                },
            ],
        )
    } else {
        None
    }
}

/// What one Codex line reads as, given the current instant and the document that a
/// function call's arguments read as.
pub open spec fn codex_outcome(v: Json, now: Timestamp, args: Option<Json>) -> Outcome {
    match str_field(v, "type"@) {
        None => Outcome::Error("Missing 'type' field"@),
        Some(t) => match field(v, "payload"@) {
            None => Outcome::Error("Missing 'payload' field"@),
            Some(p) => {
                let ts = timestamp_field(v, "timestamp"@);
                let meta = MetaModel {
                    session_id: None,
                    session_result: None,
                    stats_delta: zero_stats(),
                    timestamp: ts,
                };
                if t == "session_meta"@ {
                    let start = match timestamp_field(p, "timestamp"@) {
                        Some(x) => x,
                        None => now,
                    };
                    Outcome::Parsed(
                        seq![
                            ItemModel::SessionStart {
                                model: Seq::empty(),
                                tools: Seq::empty(),
                                timestamp: start,
                            },
                        ],
                        MetaModel { session_id: str_field(p, "id"@), timestamp: Some(start), ..meta },
                    )
                } else if t == "turn_context"@ {
                    Outcome::Parsed(
                        seq![
                            ItemModel::SessionStart {
                                model: or_default(str_field(p, "model"@), ""@),
                                tools: Seq::empty(),
                                timestamp: match ts {
                                    Some(x) => x,
                                    None => now,
                                },
                            },
                        ],
                        meta,
                    )
                } else if t == "event_msg"@ {
                    match event_msg_items(p) {
                        (Some(items), r) => Outcome::Parsed(
                            items,
                            MetaModel { session_result: r, ..meta },
                        ),
                        (None, _) => Outcome::Skipped,
                    }
                } else if t == "response_item"@ {
                    match response_items(p, args) {
                        Some(items) => Outcome::Parsed(items, meta),
                        None => Outcome::Skipped,
                    }
                } else {
                    Outcome::Parsed(seq![ItemModel::SystemEvent { label: t, detail: json_text(v) }], meta)
                }
            },
        },
    }
}

/// The arguments text of the function call a line carries.
pub open spec fn line_call_arguments(v: Json) -> Seq<char> {
    match field(v, "payload"@) {
        Some(p) => call_arguments(p),
        None => Seq::empty(),
    }
}

// ---------------------------------------------------------------------------
// Implementation
// ---------------------------------------------------------------------------


fn push_item(items: &mut Vec<TranscriptItem>, item: TranscriptItem)
    ensures
        items_model(final(items)@) == items_model(old(items)@).push(item.model()),
{
    items.push(item);
    assert(items_model(items@) =~= items_model(old(items)@).push(item.model()));
}

fn one_item(item: TranscriptItem) -> (r: Vec<TranscriptItem>)
    ensures
        items_model(r@) == seq![item.model()],
{
    let mut v: Vec<TranscriptItem> = Vec::new();
    push_item(&mut v, item);
    assert(items_model(Seq::<TranscriptItem>::empty()) =~= Seq::<ItemModel>::empty());
    v
}

/// The summary of a Codex tool call from its parsed arguments.
pub fn extract_codex_tool_summary(name: &str, args: Option<&JsonValue>) -> (r: String)
    ensures
        r@ == codex_tool_summary(name@, opt_model(args)),
{
    let a = match args {
        None => {
            return name.to_owned();
        },
        Some(a) => a,
    };
    if str_eq(name, "exec_command") {
        if let Some(cmd) = a.get_str("cmd") {
            return truncate_str(cmd.as_str(), 80);
        }
    } else if str_eq(name, "spawn_agent") {
        if let Some(msg) = a.get_str("message") {
            return truncate_str(msg.as_str(), 80);
        }
    } else if str_eq(name, "update_plan") {
        return copy_str("update plan");
    }
    proof {
        reveal_strlit("exec_command");
        reveal_strlit("spawn_agent");
        reveal_strlit("update_plan");
        assert("exec_command"@.len() == 12);
        assert("spawn_agent"@.len() == 11);
        assert("update_plan"@.len() == 11);
        assert("spawn_agent"@[0] != "update_plan"@[0]);
        assert(codex_tool_summary(name@, Some(a.model())) == tool_summary(name@, Some(a.model())));
    }
    extract_tool_summary(name, Some(a))
}

/// The items of an `event_msg` payload, recording a reported session result in `meta`.
pub fn parse_event_msg(p: &JsonValue, meta: &mut LineMeta) -> (r: Option<Vec<TranscriptItem>>)
    ensures
        match r {
            Some(items) => event_msg_items(p.model()).0 == Some(items_model(items@)),
            None => event_msg_items(p.model()).0 is None,
        },
        final(meta).model() == (MetaModel {
            session_result: if event_msg_items(p.model()).1 is Some {
                event_msg_items(p.model()).1
            } else {
                old(meta).model().session_result
            },
            ..old(meta).model()
        }),
{
    let t = p.str_or("type", "");
    let ts = t.as_str();
    if str_eq(ts, "user_message") {
        Some(one_item(TranscriptItem::UserMessage { text: p.str_or("message", "") }))
    } else if str_eq(ts, "agent_message") {
        Some(
            one_item(
                TranscriptItem::AssistantText { text: p.str_or("message", ""), is_partial: false },
            ),
        )
    } else if str_eq(ts, "task_started") {
        Some(
            one_item(
                TranscriptItem::SystemEvent {
                    label: copy_str("task_started"),
                    detail: p.str_or("collaboration_mode_kind", ""),
                },
            ),
        )
    } else if str_eq(ts, "task_complete") {
        let result = SessionResult {
            subtype: copy_str("success"),
            is_error: false,
            duration_ms: 0,
            num_turns: 0,
            total_cost_usd: JsonNumber::zero(),
            stop_reason: Some(copy_str("task_complete")),
            result_text: p.str_opt("last_agent_message"),
        };
        let item = TranscriptItem::RunResult {
            is_error: false,
            stop_reason: Some(copy_str("task_complete")),
            num_turns: 0,
            total_cost_usd: JsonNumber::zero(),
            duration_ms: 0,
            result_text: p.str_opt("last_agent_message"),
        };
        meta.session_result = Some(result);
        Some(one_item(item))
    } else if str_eq(ts, "token_count") {
        None
    } else {
        Some(one_item(TranscriptItem::SystemEvent { label: t.clone(), detail: p.to_text() }))
    }
}

/// The assistant texts of a `message` response item; `None` when it is skipped.
pub fn parse_message(p: &JsonValue) -> (r: Option<Vec<TranscriptItem>>)
    ensures
        match r {
            Some(items) => message_items(p.model()) == Some(items_model(items@)),
            None => message_items(p.model()) is None,
        },
{
    let role = p.str_or("role", "");
    if str_eq(role.as_str(), "developer") || str_eq(role.as_str(), "user") {
        return None;
    }
    let blocks = match p.get("content") {
        Some(c) => match c.as_array() {
            Some(arr) => arr,
            None => {
                return None;
            },
        },
        None => {
            return None;
        },
    };
    let ghost ms = models(blocks@);
    proof { lemma_models_len(blocks@); }
    let mut items: Vec<TranscriptItem> = Vec::new();
    assert(items_model(items@) =~= Seq::<ItemModel>::empty());
    assert(ms.take(0) =~= Seq::<Json>::empty());
    let mut i: usize = 0;
    while i < blocks.len()
        invariant
            0 <= i <= blocks.len(),
            ms == models(blocks@),
            ms.len() == blocks.len(),
            items_model(items@) == output_texts(ms.take(i as int)),
        decreases blocks.len() - i,
    {
        proof {
            lemma_models_index(blocks@, i as int);
            let t = ms.take(i + 1);
            assert(t.drop_last() =~= ms.take(i as int));
            assert(t.last() == blocks@[i as int].model());
        }
        let block = &blocks[i];
        let bt = block.str_or("type", "");
        if str_eq(bt.as_str(), "output_text") {
            let text = block.str_or("text", "");
            if !text.as_str().is_empty() {
                push_item(&mut items, TranscriptItem::AssistantText { text, is_partial: false });
            }
        }
        i = i + 1;
    }
    assert(ms.take(blocks.len() as int) =~= ms);
    if items.len() == 0 {
        None
    } else {
        Some(items)
    }
}

/// The tool use of a `function_call` payload, given the document its arguments read as.
pub fn function_call_items(p: &JsonValue, args: Option<JsonValue>) -> (r: Vec<TranscriptItem>)
    requires
        or_default(str_field(p.model(), "type"@), ""@) == "function_call"@,
    ensures
        Some(items_model(r@)) == response_items(p.model(), crate::run::opt_json(args)),
{
    let name = p.str_or("name", "");
    let summary = extract_codex_tool_summary(name.as_str(), args.as_ref());
    proof {
        reveal_strlit("function_call");
        reveal_strlit("reasoning");
        reveal_strlit("message");
        assert("function_call"@.len() == 13);
        assert("reasoning"@.len() == 9);
        assert("message"@.len() == 7);
    }
    one_item(TranscriptItem::ToolUse { name, summary, input: args })
}

/// The items of a `response_item` payload; `None` when it is skipped. A function call's
/// arguments are read with serde_json.
pub fn parse_response_item(p: &JsonValue) -> (r: Option<Vec<TranscriptItem>>)
    ensures
        match r {
            Some(items) => response_items(p.model(), read_doc(call_arguments(p.model())))
                == Some(items_model(items@)),
            None => response_items(p.model(), read_doc(call_arguments(p.model()))) is None,
        },
{
    let ghost a0 = read_doc(call_arguments(p.model()));
    let t = p.str_or("type", "");
    let ts = t.as_str();
    if str_eq(ts, "reasoning") {
        assert(response_items(p.model(), a0) is None);
        None
    } else if str_eq(ts, "message") {
        let r = parse_message(p);
        assert(response_items(p.model(), a0) == message_items(p.model()));
        r
    } else if str_eq(ts, "function_call") {
        let args_text = p.str_or("arguments", "{}");
        let args = match parse_json(args_text.as_str()) {
            Ok(a) => Some(a),
            Err(_) => None,
        };
        let ghost a = crate::run::opt_json(args);
        let items = function_call_items(p, args);
        assert(response_items(p.model(), a) == Some(items_model(items@)));
        Some(items)
    } else if str_eq(ts, "function_call_output") {
        let output = p.str_or("output", "");
        let summary = truncate_str(output.as_str(), 80);
        let items = one_item(
            TranscriptItem::ToolResult {
                tool_name: String::new(),
                summary,
                content: Some(output),
                duration_ms: None,
            },
        );
        assert(response_items(p.model(), a0) == Some(items_model(items@)));
        Some(items)
    } else if str_eq(ts, "custom_tool_call") {
        let name = p.str_or("name", "");
        let input_text = p.str_or("input", "");
        let status = p.str_or("status", "unknown");
        let lines = split_lines(input_text.as_str());
        let first = if lines.len() > 0 {
            proof {
                assert(lines@.map_values(|l: String| l@)[0] == lines@[0]@);
            }
            truncate_str(lines[0].as_str(), 80)
        } else {
            truncate_str(name.as_str(), 80)
        };
        proof {
            if input_text@.len() > 0 {
                crate::text::lemma_lines_nonempty(input_text@);
            } else {
                assert(crate::text::lines_of(input_text@) =~= Seq::<Seq<char>>::empty());
            }
        }
        let mut items: Vec<TranscriptItem> = Vec::new();
        assert(items_model(items@) =~= Seq::<ItemModel>::empty());
        push_item(
            &mut items,
            TranscriptItem::ToolUse { name: name.clone(), summary: first, input: None },
        );
        push_item(
            &mut items,
            TranscriptItem::ToolResult {
                tool_name: name,
                summary: status,
                content: Some(input_text),
                duration_ms: None,
            },
        );
        assert(response_items(p.model(), a0) == Some(items_model(items@)));
        Some(items)
    } else {
        assert(response_items(p.model(), a0) is None);
        None
    }
}

/// A `task_complete` event ends the session with the agent's last message: a line
/// holding one reads as a run result whose text is that message, and the session
/// result it reports carries the same text.
pub proof fn law_task_complete_keeps_last_message(v: Json, now: Timestamp, args: Option<Json>, p: Json, m: Seq<char>)
    requires
        str_field(v, "type"@) == Some("event_msg"@),
        field(v, "payload"@) == Some(p),
        str_field(p, "type"@) == Some("task_complete"@),
        field(p, "last_agent_message"@) == Some(Json::Str(m)),
    ensures
        match codex_outcome(v, now, args) {
            Outcome::Parsed(items, meta) => items.len() == 1 && match items[0] {
                ItemModel::RunResult { result_text, is_error, .. } => result_text == Some(m) && !is_error,
                _ => false,
            } && match meta.session_result {
                Some(r) => r.result_text == Some(m),
                None => false,
            },
            _ => false,
        },
{
    reveal_strlit("event_msg");
    reveal_strlit("session_meta");
    reveal_strlit("turn_context");
    reveal_strlit("task_complete");
    reveal_strlit("user_message");
    reveal_strlit("agent_message");
    reveal_strlit("task_started");
    assert("event_msg"@.len() == 9 && "session_meta"@.len() == 12 && "turn_context"@.len() == 12);
    assert("event_msg"@ != "session_meta"@);
    assert("event_msg"@ != "turn_context"@);
    assert("task_complete"@.len() == 13 && "user_message"@.len() == 12 && "task_started"@.len() == 12);
    assert("task_complete"@[0] != "agent_message"@[0]);
    assert("task_complete"@ != "user_message"@);
    assert("task_complete"@ != "agent_message"@);
    assert("task_complete"@ != "task_started"@);
}

/// The Codex reader counts nothing itself: every line it reads carries empty
/// statistics, which are left to the watcher.
pub proof fn law_codex_counts_nothing(v: Json, now: Timestamp, args: Option<Json>)
    ensures
        codex_outcome(v, now, args) matches Outcome::Parsed(_, meta) ==> meta.stats_delta == zero_stats(),
{
}

/// The session start a `session_meta` payload announces, at the instant it names
/// (else `now`); the session id and that instant go into `meta`.
fn parse_session_meta(payload: &JsonValue, meta: &mut LineMeta, now: Timestamp) -> (r: Vec<TranscriptItem>)
    ensures
        ({
            let start = match timestamp_field(payload.model(), "timestamp"@) {
                Some(x) => x,
                None => now,
            };
            &&& items_model(r@) == seq![
                ItemModel::SessionStart { model: Seq::empty(), tools: Seq::empty(), timestamp: start },
            ]
            &&& final(meta).model() == MetaModel {
                session_id: str_field(payload.model(), "id"@),
                timestamp: Some(start),
                ..old(meta).model()
            }
        }),
{
    meta.session_id = payload.str_opt("id");
    let start = match parse_timestamp(payload, "timestamp") {
        Some(x) => x,
        None => now,
    };
    meta.timestamp = Some(start);
    proof {
        assert(crate::run::strs_model(Seq::<String>::empty()) =~= Seq::<Seq<char>>::empty());
    }
    one_item(TranscriptItem::SessionStart { model: String::new(), tools: Vec::new(), timestamp: start })
}

/// The session start a `turn_context` payload announces: its model, at the line's
/// instant (else `now`).
fn parse_turn_context(payload: &JsonValue, meta: &LineMeta, now: Timestamp) -> (r: Vec<TranscriptItem>)
    ensures
        items_model(r@) == seq![
            ItemModel::SessionStart {
                model: or_default(str_field(payload.model(), "model"@), ""@),
                tools: Seq::empty(),
                timestamp: match meta.timestamp {
                    Some(x) => x,
                    None => now,
                },
            },
        ],
{
    let timestamp = match meta.timestamp {
        Some(x) => x,
        None => now,
    };
    proof {
        assert(crate::run::strs_model(Seq::<String>::empty()) =~= Seq::<Seq<char>>::empty());
    }
    one_item(TranscriptItem::SessionStart { model: payload.str_or("model", ""), tools: Vec::new(), timestamp })
}

/// Reads one parsed Codex line, given the current instant `now`.
pub fn parse_codex_value(v: &JsonValue, now: Timestamp) -> (r: ParseResult)
    ensures
        r.model() == codex_outcome(v.model(), now, read_doc(line_call_arguments(v.model()))),
{
    let ghost a0 = read_doc(line_call_arguments(v.model()));
    let event_type = match v.get_str("type") {
        Some(t) => t,
        None => {
            let r = ParseResult::Error(copy_str("Missing 'type' field"));
            assert(r.model() == codex_outcome(v.model(), now, a0));
            return r;
        },
    };
    let payload = match v.get("payload") {
        Some(p) => p,
        None => {
            let r = ParseResult::Error(copy_str("Missing 'payload' field"));
            assert(r.model() == codex_outcome(v.model(), now, a0));
            return r;
        },
    };
    let mut meta = LineMeta {
        session_id: None,
        session_result: None,
        stats_delta: RunStats::new(),
        timestamp: parse_timestamp(v, "timestamp"),
    };
    let t = event_type.as_str();
    if str_eq(t, "session_meta") {
        let items = parse_session_meta(payload, &mut meta, now);
        let r = ParseResult::Parsed(items, meta);
        assert(r.model() == codex_outcome(v.model(), now, a0));
        r
    } else if str_eq(t, "turn_context") {
        let items = parse_turn_context(payload, &meta, now);
        let r = ParseResult::Parsed(items, meta);
        assert(r.model() == codex_outcome(v.model(), now, a0));
        r
    } else if str_eq(t, "event_msg") {
        let r = match parse_event_msg(payload, &mut meta) {
            Some(items) => ParseResult::Parsed(items, meta),
            None => ParseResult::Skipped,
        };
        assert(r.model() == codex_outcome(v.model(), now, a0));
        r
    } else if str_eq(t, "response_item") {
        let items = parse_response_item(payload);
        let r = match items {
            Some(its) => ParseResult::Parsed(its, meta),
            None => ParseResult::Skipped,
        };
        assert(r.model() == codex_outcome(v.model(), now, a0));
        r
    } else {
        let item = TranscriptItem::SystemEvent { label: event_type.clone(), detail: v.to_text() };
        let r = ParseResult::Parsed(one_item(item), meta);
        assert(r.model() == codex_outcome(v.model(), now, a0));
        r
    }
}

impl CodexParser {
    /// Reads one Codex JSONL line.
    pub fn parse_codex_line(&self, line: &str) -> (r: ParseResult)
        ensures
            !json_accepts(line@) ==> (r matches ParseResult::Error(m) && is_json_error_message(m@)),
            json_accepts(line@) ==> exists|now: Timestamp|
                r.model() == codex_outcome(
                    json_document(line@),
                    now,
                    read_doc(line_call_arguments(json_document(line@))),
                ),
    {
        match parse_json(line) {
            Err(e) => {
                let mut m = copy_str("JSON parse error: ");
                let ghost prefix = m@;
                crate::json::append_str(&mut m, e.as_str());
                proof {
                    reveal_strlit("JSON parse error: ");
                    assert(m@.take(18) =~= prefix);
                }
                ParseResult::Error(m)
            },
            Ok(v) => {
                let t = now();
                parse_codex_value(&v, t)
            },
        }
    }
}

impl TranscriptParser for CodexParser {
    fn parse_line(&self, line: &str) -> (r: ParseResult)
        ensures
            !json_accepts(line@) ==> (r matches ParseResult::Error(m) && is_json_error_message(m@)),
            json_accepts(line@) ==> exists|now: Timestamp|
                r.model() == codex_outcome(
                    json_document(line@),
                    now,
                    read_doc(line_call_arguments(json_document(line@))),
                ),
    {
        self.parse_codex_line(line)
    }
}

} // verus!
