//! The tool calls of a run, one line each.
use crate::run::{items_model, opt_str, ItemModel, TranscriptItem};
use crate::ui::markdown::{dim, dim_style, repeat, repeat_char};
use crate::ui::style::{lines_model, plain, Color, Modifiers, Span, Style, StyledLine};
use crate::ui::highlight::two_spans;
use crate::ui::style::fg_only;
use crate::ui::transcript::{costs_model, label_bold, push_line};
use crate::text::copy_str;
use vstd::prelude::*;

verus! {

/// `s` padded with spaces to 16 characters (`{:<16}`).
pub open spec fn column(s: Seq<char>) -> Seq<char> {
    if s.len() >= 16 {
        s
    } else {
        s + repeat_char(' ', (16 - s.len()) as nat)
    }
}

/// The line of one item in the tool list, if it has one. `cost` is the cost shown
/// for it.
pub open spec fn tool_line(item: ItemModel, cost: Option<Seq<char>>) -> Option<Seq<(Seq<char>, Style)>> {
    match item {
        ItemModel::ToolUse { name, summary, .. } => Some(
            seq![(column(name), fg_only(Color::Magenta)), (summary, plain())],
        ),
        ItemModel::ToolResult { tool_name, summary, .. } => Some(
            seq![(column("  ↳ "@ + tool_name), dim_style()), (summary, dim_style())],
        ),
        ItemModel::SubagentStart { description, .. } => Some(
            seq![(column("AGENT"@), label_bold(Color::Yellow)), (description, fg_only(Color::Yellow))],
        ),
        ItemModel::SubagentProgress { description, tool_name } => Some(
            seq![
                (
                    column("  ├─ "@ + match tool_name {
                        Some(t) => t,
                        None => "…"@,
                    }),
                    fg_only(Color::Yellow),
                ),
                (description, dim_style()),
            ],
        ),
        ItemModel::SubagentEnd { summary, status, .. } => Some(
            seq![
                (column("  └─"@), fg_only(Color::Yellow)),
                (
                    status + ": "@ + summary + match cost {
                        Some(c) => "  "@ + c,
                        None => Seq::empty(),
                    },
                    dim_style(),
                ),
            ],
        ),
        _ => None,
    }
}

/// The tool list of a run's items.
pub open spec fn tool_list(items: Seq<ItemModel>, costs: Seq<Option<Seq<char>>>) -> Seq<Seq<(Seq<char>, Style)>>
    decreases items.len(),
{
    if items.len() == 0 {
        Seq::empty()
    } else {
        let n = (items.len() - 1) as int;
        tool_list(items.drop_last(), costs) + match tool_line(items[n], costs[n]) {
            Some(l) => seq![l],
            None => Seq::empty(),
        }
    }
}

fn column_text(s: String) -> (r: String)
    ensures
        r@ == column(s@),
{
    let n = crate::ui::wrap::char_width(s.as_str());
    let mut s = s;
    if n < 16 {
        let pad = repeat(' ', 16 - n);
        crate::json::append_str(&mut s, pad.as_str());
    }
    s
}

fn concat(a: &str, b: &str) -> (r: String)
    ensures
        r@ == a@ + b@,
{
    let mut s = a.to_owned();
    crate::json::append_str(&mut s, b);
    s
}

fn tool_line_of(item: &TranscriptItem, cost: &Option<String>) -> (r: Option<StyledLine>)
    ensures
        match r {
            Some(l) => tool_line(item.model(), opt_str(*cost)) == Some(l.model()),
            None => tool_line(item.model(), opt_str(*cost)) is None,
        },
{
    match item {
        TranscriptItem::ToolUse { name, summary, .. } => Some(two_spans(
            Span::styled(column_text(name.clone()), Style::new().fg(Color::Magenta)),
            Span::styled(summary.clone(), Style::new()),
        )),
        TranscriptItem::ToolResult { tool_name, summary, .. } => Some(two_spans(
            Span::styled(column_text(concat("  ↳ ", tool_name.as_str())), dim()),
            Span::styled(summary.clone(), dim()),
        )),
        TranscriptItem::SubagentStart { description, .. } => Some(two_spans(
            Span::styled(column_text(copy_str("AGENT")), Style::new().fg(Color::Yellow).add_modifier(Modifiers::bold())),
            Span::styled(description.clone(), Style::new().fg(Color::Yellow)),
        )),
        TranscriptItem::SubagentProgress { description, tool_name } => {
            let tool = match tool_name {
                Some(t) => t.clone(),
                None => copy_str("…"),
            };
            assert(tool@ == match opt_str(*tool_name) {
                Some(t) => t,
                None => "…"@,
            });
            Some(two_spans(
                Span::styled(column_text(concat("  ├─ ", tool.as_str())), Style::new().fg(Color::Yellow)),
                Span::styled(description.clone(), dim()),
            ))
        },
        TranscriptItem::SubagentEnd { summary, status, .. } => {
            let mut t = status.clone();
            crate::json::append_str(&mut t, ": ");
            crate::json::append_str(&mut t, summary.as_str());
            match cost {
                Some(c) => {
                    crate::json::append_str(&mut t, "  ");
                    crate::json::append_str(&mut t, c.as_str());
                },
                None => {},
            }
            assert(t@ =~= status@ + ": "@ + summary@ + match opt_str(*cost) {
                Some(c) => "  "@ + c,
                None => Seq::empty(),
            });
            Some(two_spans(
                Span::styled(column_text(copy_str("  └─")), Style::new().fg(Color::Yellow)),
                Span::styled(t, dim()),
            ))
        },
        _ => None,
    }
}

/// The tool list of a run: a line for each tool call, tool result and subagent
/// event, in order. `cost_labels` holds, for each item, the cost it shows.
pub fn tool_lines(items: &Vec<TranscriptItem>, cost_labels: &Vec<Option<String>>) -> (r: Vec<StyledLine>)
    requires
        cost_labels@.len() == items@.len(),
    ensures
        lines_model(r@) == tool_list(items_model(items@), costs_model(cost_labels@)),
{
    let ghost im = items_model(items@);
    let ghost cm = costs_model(cost_labels@);
    let mut out: Vec<StyledLine> = Vec::new();
    let mut i: usize = 0;
    assert(lines_model(out@) =~= Seq::<Seq<(Seq<char>, Style)>>::empty());
    while i < items.len()
        invariant
            i <= items@.len(),
            cost_labels@.len() == items@.len(),
            im == items_model(items@),
            cm == costs_model(cost_labels@),
            lines_model(out@) == tool_list(im.take(i as int), cm),
        decreases items.len() - i,
    {
        let l = tool_line_of(&items[i], &cost_labels[i]);
        proof {
            let t = im.take(i + 1);
            assert(t.drop_last() =~= im.take(i as int));
            assert(t[i as int] == items@[i as int].model());
            assert(cm[i as int] == opt_str(cost_labels@[i as int]));
        }
        match l {
            Some(line) => push_line(&mut out, line),
            None => {
                assert(lines_model(out@) =~= tool_list(im.take(i as int), cm) + Seq::<Seq<(Seq<char>, Style)>>::empty());
            },
        }
        i = i + 1;
    }
    assert(im.take(items.len() as int) =~= im);
    out
}

} // verus!
