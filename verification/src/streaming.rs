//! Live accumulation of `stream_event` deltas for the active run.
use crate::events::AppEvent;
use crate::json::{as_str, field, field_opt, str_eq, str_field, Json, JsonValue};
use vstd::prelude::*;

verus! {

/// Buffers partial text and tool input between `content_block_start` and the end
/// of the block.
pub struct DeltaAccumulator {
    active_block_type: Option<String>,
    text_buffer: String,
    tool_input_buffer: String,
}

/// Model of the accumulator: the open block's type and the two buffers.
pub struct AccModel {
    pub active: Option<Seq<char>>,
    pub text: Seq<char>,
    pub tool_input: Seq<char>,
}

pub open spec fn empty_acc() -> AccModel {
    AccModel { active: None, text: Seq::empty(), tool_input: Seq::empty() }
}

/// A block of type `block_type` starts: both buffers are emptied.
pub open spec fn acc_start(block_type: Seq<char>) -> AccModel {
    AccModel { active: Some(block_type), text: Seq::empty(), tool_input: Seq::empty() }
}

/// Text arrives: it is kept only inside a `text` block.
pub open spec fn acc_text(a: AccModel, t: Seq<char>) -> AccModel {
    if a.active == Some("text"@) {
        AccModel { text: a.text + t, ..a }
    } else {
        a
    }
}

/// Tool input arrives: it is kept only inside a `tool_use` block.
pub open spec fn acc_json(a: AccModel, j: Seq<char>) -> AccModel {
    if a.active == Some("tool_use"@) {
        AccModel { tool_input: a.tool_input + j, ..a }
    } else {
        a
    }
}

/// The text of an open `text` block, when it is not empty.
pub open spec fn acc_current_text(a: AccModel) -> Option<Seq<char>> {
    if a.active == Some("text"@) && a.text.len() > 0 {
        Some(a.text)
    } else {
        None
    }
}

/// The input of an open `tool_use` block, when it is not empty.
pub open spec fn acc_current_tool_input(a: AccModel) -> Option<Seq<char>> {
    if a.active == Some("tool_use"@) && a.tool_input.len() > 0 {
        Some(a.tool_input)
    } else {
        None
    }
}

pub open spec fn opt_str_ref(r: Option<&str>) -> Option<Seq<char>> {
    match r {
        Some(s) => Some(s@),
        None => None,
    }
}

impl DeltaAccumulator {
    pub closed spec fn model(&self) -> AccModel {
        AccModel {
            active: match self.active_block_type {
                Some(s) => Some(s@),
                None => None,
            },
            text: self.text_buffer@,
            tool_input: self.tool_input_buffer@,
        }
    }

    fn active_is(&self, kind: &str) -> (r: bool)
        ensures
            r == (self.model().active == Some(kind@)),
    {
        match &self.active_block_type {
            Some(t) => str_eq(t.as_str(), kind),
            None => false,
        }
    }

    /// An accumulator with no open block.
    pub fn new() -> (r: DeltaAccumulator)
        ensures
            r.model() == empty_acc(),
    {
        DeltaAccumulator {
            active_block_type: None,
            text_buffer: String::new(),
            tool_input_buffer: String::new(),
        }
    }

    /// A content block of type `block_type` starts.
    pub fn on_content_block_start(&mut self, block_type: &str)
        ensures
            final(self).model() == acc_start(block_type@),
    {
        self.active_block_type = Some(block_type.to_owned());
        self.text_buffer = String::new();
        self.tool_input_buffer = String::new();
    }

    /// A piece of text arrives.
    pub fn on_text_delta(&mut self, text: &str)
        ensures
            final(self).model() == acc_text(old(self).model(), text@),
    {
        if self.active_is("text") {
            crate::json::append_str(&mut self.text_buffer, text);
        }
    }

    /// A piece of tool input JSON arrives.
    pub fn on_input_json_delta(&mut self, json: &str)
        ensures
            final(self).model() == acc_json(old(self).model(), json@),
    {
        if self.active_is("tool_use") {
            crate::json::append_str(&mut self.tool_input_buffer, json);
        }
    }

    /// The open block ends.
    pub fn on_block_done(&mut self)
        ensures
            final(self).model() == empty_acc(),
    {
        self.active_block_type = None;
        self.text_buffer = String::new();
        self.tool_input_buffer = String::new();
    }

    /// The text gathered so far in an open `text` block, if any.
    pub fn current_text(&self) -> (r: Option<&str>)
        ensures
            opt_str_ref(r) == acc_current_text(self.model()),
    {
        if self.active_is("text") && !self.text_buffer.as_str().is_empty() {
            Some(self.text_buffer.as_str())
        } else {
            None
        }
    }

    /// The tool input gathered so far in an open `tool_use` block, if any.
    pub fn current_tool_input_json(&self) -> (r: Option<&str>)
        ensures
            opt_str_ref(r) == acc_current_tool_input(self.model()),
    {
        if self.active_is("tool_use") && !self.tool_input_buffer.as_str().is_empty() {
            Some(self.tool_input_buffer.as_str())
        } else {
            None
        }
    }

    /// Forgets everything.
    pub fn reset(&mut self)
        ensures
            final(self).model() == empty_acc(),
    {
        *self = DeltaAccumulator::new();
    }
}

impl Default for DeltaAccumulator {
    fn default() -> (r: DeltaAccumulator)
        ensures
            r.model() == empty_acc(),
    {
        DeltaAccumulator::new()
    }
}

/// How one `stream_event` line changes the accumulator, and the text to show, if any.
pub open spec fn stream_step(v: Json, a: AccModel) -> (AccModel, Option<Seq<char>>) {
    match field(v, "event"@) {
        None => (a, None),
        Some(event) => match str_field(event, "type"@) {
            None => (a, None),
            Some(et) => if et == "content_block_start"@ {
                match as_str(field_opt(field(event, "content_block"@), "type"@)) {
                    Some(b) => (acc_start(b), None),
                    None => (a, None),
                }
            } else if et == "content_block_delta"@ {
                match field(event, "delta"@) {
                    None => (a, None),
                    Some(delta) => match str_field(delta, "type"@) {
                        None => (a, None),
                        Some(dt) => if dt == "text_delta"@ {
                            match str_field(delta, "text"@) {
                                Some(t) => (acc_text(a, t), acc_current_text(acc_text(a, t))),
                                None => (a, None),
                            }
                        } else if dt == "input_json_delta"@ {
                            match str_field(delta, "partial_json"@) {
                                Some(j) => (acc_json(a, j), None),
                                None => (a, None),
                            }
                        } else {
                            (a, None)
                        },
                    },
                }
            } else if et == "content_block_stop"@ {
                (empty_acc(), None)
            } else {
                (a, None)
            },
        },
    }
}

/// Feeds one `stream_event` line to the accumulator. Returns the text to show when a
/// text delta leaves an open text block with something in it.
pub fn process_stream_event(v: &JsonValue, run_id: usize, acc: &mut DeltaAccumulator) -> (r:
    Option<AppEvent>)
    ensures
        final(acc).model() == stream_step(v.model(), old(acc).model()).0,
        match r {
            Some(AppEvent::StreamDelta { run_id: id, text }) => id == run_id && stream_step(
                v.model(),
                old(acc).model(),
            ).1 == Some(text@),
            Some(_) => false,
            None => stream_step(v.model(), old(acc).model()).1 is None,
        },
{
    let event = match v.get("event") {
        Some(e) => e,
        None => {
            return None;
        },
    };
    let event_type = match event.get_str("type") {
        Some(t) => t.as_str(),
        None => {
            return None;
        },
    };
    if str_eq(event_type, "content_block_start") {
        let block_type = match event.get("content_block") {
            Some(b) => match b.get_str("type") {
                Some(t) => t,
                None => {
                    return None;
                },
            },
            None => {
                return None;
            },
        };
        acc.on_content_block_start(block_type.as_str());
        None
    } else if str_eq(event_type, "content_block_delta") {
        let delta = match event.get("delta") {
            Some(d) => d,
            None => {
                return None;
            },
        };
        let delta_type = match delta.get_str("type") {
            Some(t) => t.as_str(),
            None => {
                return None;
            },
        };
        if str_eq(delta_type, "text_delta") {
            let text = match delta.get_str("text") {
                Some(t) => t,
                None => {
                    return None;
                },
            };
            acc.on_text_delta(text.as_str());
            match acc.current_text() {
                Some(t) => Some(AppEvent::StreamDelta { run_id, text: t.to_owned() }),
                None => None,
            }
        } else if str_eq(delta_type, "input_json_delta") {
            match delta.get_str("partial_json") {
                Some(j) => {
                    acc.on_input_json_delta(j.as_str());
                },
                None => {},
            }
            None
        } else {
            None
        }
    } else if str_eq(event_type, "content_block_stop") {
        acc.on_block_done();
        None
    } else {
        None
    }
}

/// The accumulator after text deltas `ds`, one after the other.
pub open spec fn acc_texts(a: AccModel, ds: Seq<Seq<char>>) -> AccModel
    decreases ds.len(),
{
    if ds.len() == 0 {
        a
    } else {
        acc_text(acc_texts(a, ds.drop_last()), ds.last())
    }
}

/// The accumulator after tool-input deltas `ds`, one after the other.
pub open spec fn acc_jsons(a: AccModel, ds: Seq<Seq<char>>) -> AccModel
    decreases ds.len(),
{
    if ds.len() == 0 {
        a
    } else {
        acc_json(acc_jsons(a, ds.drop_last()), ds.last())
    }
}

/// The deltas one after the other.
pub open spec fn concat(ds: Seq<Seq<char>>) -> Seq<char>
    decreases ds.len(),
{
    if ds.len() == 0 {
        Seq::empty()
    } else {
        concat(ds.drop_last()) + ds.last()
    }
}

/// Inside a text block, the text shown is everything received since the block
/// started (once there is any).
pub proof fn law_text_accumulates(ds: Seq<Seq<char>>)
    ensures
        acc_texts(acc_start("text"@), ds).text == concat(ds),
        acc_current_text(acc_texts(acc_start("text"@), ds)) == if concat(ds).len() > 0 {
            Some(concat(ds))
        } else {
            None
        },
    decreases ds.len(),
{
    if ds.len() > 0 {
        law_text_accumulates(ds.drop_last());
    }
    lemma_texts_keep_block(acc_start("text"@), ds);
}

/// Inside a tool-use block, the input is everything received since the block
/// started (once there is any).
pub proof fn law_tool_input_accumulates(ds: Seq<Seq<char>>)
    ensures
        acc_jsons(acc_start("tool_use"@), ds).tool_input == concat(ds),
        acc_current_tool_input(acc_jsons(acc_start("tool_use"@), ds)) == if concat(ds).len() > 0 {
            Some(concat(ds))
        } else {
            None
        },
    decreases ds.len(),
{
    if ds.len() > 0 {
        law_tool_input_accumulates(ds.drop_last());
    }
    lemma_jsons_keep_block(acc_start("tool_use"@), ds);
}

proof fn lemma_texts_keep_block(a: AccModel, ds: Seq<Seq<char>>)
    ensures
        acc_texts(a, ds).active == a.active,
        acc_texts(a, ds).tool_input == a.tool_input,
        a.active != Some("text"@) ==> acc_texts(a, ds) == a,
    decreases ds.len(),
{
    if ds.len() > 0 {
        lemma_texts_keep_block(a, ds.drop_last());
    }
}

proof fn lemma_jsons_keep_block(a: AccModel, ds: Seq<Seq<char>>)
    ensures
        acc_jsons(a, ds).active == a.active,
        acc_jsons(a, ds).text == a.text,
        a.active != Some("tool_use"@) ==> acc_jsons(a, ds) == a,
    decreases ds.len(),
{
    if ds.len() > 0 {
        lemma_jsons_keep_block(a, ds.drop_last());
    }
}

/// Text that arrives with no block open, or after a block ended, is never shown.
pub proof fn law_orphan_text_ignored(ds: Seq<Seq<char>>)
    ensures
        acc_texts(empty_acc(), ds) == empty_acc(),
        acc_current_text(acc_texts(empty_acc(), ds)) is None,
{
    lemma_texts_keep_block(empty_acc(), ds);
}

/// A `content_block_stop` event forgets everything gathered, whatever was open.
pub proof fn law_block_stop_clears(v: Json, a: AccModel)
    requires
        field(v, "event"@) is Some,
        str_field(field(v, "event"@)->0, "type"@) == Some("content_block_stop"@),
    ensures
        stream_step(v, a).0 == empty_acc(),
        stream_step(v, a).1 is None,
{
    reveal_strlit("content_block_stop");
    reveal_strlit("content_block_start");
    reveal_strlit("content_block_delta");
    assert("content_block_stop"@.len() == 18);
    assert("content_block_start"@.len() == 19 && "content_block_delta"@.len() == 19);
}

/// A block start forgets what an earlier block gathered.
pub proof fn law_block_start_resets(a: AccModel, block_type: Seq<char>)
    ensures
        acc_start(block_type).text.len() == 0,
        acc_start(block_type).tool_input.len() == 0,
        acc_current_text(acc_start(block_type)) is None,
        acc_current_tool_input(acc_start(block_type)) is None,
{
}

} // verus!
