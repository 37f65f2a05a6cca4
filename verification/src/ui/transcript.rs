//! The transcript of a run as screen lines.
use crate::app::{App, ExpandMode};
use crate::json::{pretty_text, str_eq, Json};
use crate::run::{items_model, opt_str, ItemModel, TranscriptItem};
use crate::text::{copy_str, decimal, lines_of, push_char, push_decimal, split_lines};
use crate::ui::highlight::{
    bar_line, bar_then, edit_patch, pad, pad_text, patch_lines, render_edit, render_patch,
    two_spans, Highlighter,
};
use crate::ui::markdown::{sat_sub, 
    blocks_from_tokens, bold_mods, dim, dim_style, markdown_tokens,
    md_blocks, md_lines, md_tokens_of, render_blocks, MdToken,
};
use crate::ui::style::{fg_only, lines_model, plain, spans_model, Color, Modifiers, Span, Style, StyledLine};
use crate::ui::wrap::{soft_wrap_plain, soft_wrapped, MarkdownRenderOptions};
use vstd::prelude::*;

verus! {

/// Columns the labels before the transcript's text take.
pub const LABEL_WIDTH: usize = 9;

// ---------------------------------------------------------------------------
// Specification
// ---------------------------------------------------------------------------

pub open spec fn label_bold(c: Color) -> Style {
    Style { fg: Some(c), add: bold_mods(), ..plain() }
}

/// `s` cut to `max` characters, its last one then an ellipsis.
pub open spec fn truncated(s: Seq<char>, max: nat) -> Seq<char> {
    if max == 0 {
        Seq::empty()
    } else if s.len() <= max {
        s
    } else {
        s.take(max - 1).push('…')
    }
}

/// At most the first `n` of `s`.
pub open spec fn first_n<A>(s: Seq<A>, n: nat) -> Seq<A> {
    if s.len() <= n {
        s
    } else {
        s.take(n as int)
    }
}

/// Whether the detail of a tool call or result shows: never, for edits (or patches)
/// only, or always.
pub open spec fn shows(mode: ExpandMode, special: bool) -> bool {
    match mode {
        ExpandMode::Off => false,
        ExpandMode::Edits => special,
        ExpandMode::All => true,
    }
}

/// `parts` joined by `sep`.
pub open spec fn joined(parts: Seq<Seq<char>>, sep: Seq<char>) -> Seq<char>
    decreases parts.len(),
{
    if parts.len() == 0 {
        Seq::empty()
    } else if parts.len() == 1 {
        parts[0]
    } else {
        joined(parts.drop_last(), sep) + sep + parts.last()
    }
}

/// A line of detail under an item: padding, then a bar and the text, dim.
pub open spec fn detail_line(text: Seq<char>) -> Seq<(Seq<char>, Style)> {
    seq![(pad(), plain()), (bar_then(text), dim_style())]
}

/// Lines of text, each wrapped at `w` columns, as detail lines.
pub open spec fn wrapped_detail(ls: Seq<Seq<char>>, w: nat) -> Seq<Seq<(Seq<char>, Style)>>
    decreases ls.len(),
{
    if ls.len() == 0 {
        Seq::empty()
    } else {
        wrapped_detail(ls.drop_last(), w) + soft_wrapped(ls.last(), w).map_values(
            |c: Seq<char>| detail_line(c),
        )
    }
}

/// `{n:02}`.
pub open spec fn two_digits(n: nat) -> Seq<char> {
    if n < 10 {
        seq!['0'] + decimal(n)
    } else {
        decimal(n)
    }
}

pub open spec fn opt_part(o: Option<Seq<char>>) -> Seq<Seq<char>> {
    match o {
        Some(s) => seq![s],
        None => Seq::empty(),
    }
}

/// What a finished subagent reports: its status, how long it ran, its tools and
/// tokens, its cost and its summary.
pub open spec fn subagent_parts(
    summary: Seq<char>,
    status: Seq<char>,
    cost: Option<Seq<char>>,
    duration_ms: Option<u64>,
    tool_uses: Option<u64>,
    total_tokens: Option<u64>,
) -> Seq<Seq<char>> {
    seq![status] + match duration_ms {
        Some(ms) => seq![
            if ms / 1000 / 60 > 0 {
                decimal((ms / 1000 / 60) as nat) + seq!['m']
            } else {
                decimal((ms / 1000) as nat) + seq!['s']
            },
        ],
        None => Seq::empty(),
    } + match tool_uses {
        Some(n) => seq![decimal(n as nat) + " tools"@],
        None => Seq::empty(),
    } + match total_tokens {
        Some(t) => seq![
            if t >= 1000 {
                decimal((t / 1000) as nat) + "k tok"@
            } else {
                decimal(t as nat) + " tok"@
            },
        ],
        None => Seq::empty(),
    } + opt_part(cost) + (if summary.len() > 0 {
        seq![summary]
    } else {
        Seq::empty()
    })
}

/// What a run's result reports: why it stopped, its turns, its cost and how long it
/// ran.
pub open spec fn result_parts(stop_reason: Option<Seq<char>>, num_turns: u64, cost: Option<Seq<char>>, duration_ms: u64) -> Seq<Seq<char>> {
    opt_part(stop_reason) + seq![decimal(num_turns as nat) + " turns"@] + opt_part(cost) + duration_parts(duration_ms)
}

/// How long a run took: minutes and two-digit seconds, or seconds, or nothing
/// under a second.
pub open spec fn duration_parts(duration_ms: u64) -> Seq<Seq<char>> {
    let total = duration_ms / 1000;
    if total / 60 > 0 {
        seq![decimal((total / 60) as nat) + "m "@ + two_digits((total % 60) as nat) + seq!['s']]
    } else if total > 0 {
        seq![decimal((total % 60) as nat) + seq!['s']]
    } else {
        Seq::empty()
    }
}

/// The lines of a Markdown text under `label`, read from the parser events `toks`.
pub open spec fn markdown_item(
    toks: Seq<MdToken>,
    label: Seq<char>,
    color: Color,
    cols: nat,
    active: bool,
    query: Seq<char>,
) -> Seq<Seq<(Seq<char>, Style)>> {
    md_lines(md_blocks(toks, plain()), (label, label_bold(color)), cols, plain(), active, query)
}

/// A tool call: its name and summary, and, when it shows, its input (an `Edit` as
/// a patch, anything else as indented JSON, at most 15 lines).
pub open spec fn tool_use_model(name: Seq<char>, summary: Seq<char>, input: Option<Json>, mode: ExpandMode, cols: nat) -> Seq<Seq<(Seq<char>, Style)>> {
    seq![tool_use_head(name, summary, cols)] + match input {
        Some(j) => if shows(mode, name == "Edit"@) {
            if name == "Edit"@ {
                patch_lines(edit_patch(j))
            } else {
                first_n(lines_of(pretty_text(j, Seq::empty())), 15).map_values(
                    |l: Seq<char>| detail_line(l),
                )
            }
        } else {
            Seq::empty()
        },
        None => Seq::empty(),
    }
}

pub open spec fn tool_use_head(name: Seq<char>, summary: Seq<char>, cols: nat) -> Seq<(Seq<char>, Style)> {
    seq![
        ("TOOL     "@, label_bold(Color::Magenta)),
        (name, fg_only(Color::Red)),
        ("  "@, plain()),
        (truncated(summary, sat_sub(cols, crate::ui::wrap::byte_len(name) + 2)), dim_style()),
    ]
}

/// The detail shown under a tool result, when it shows: a patch in colour, or the
/// first lines of the output in a box.
pub open spec fn result_detail(tool_name: Seq<char>, content: Option<Seq<char>>, mode: ExpandMode, cols: nat) -> Seq<Seq<(Seq<char>, Style)>> {
    match content {
        Some(c) => if shows(mode, tool_name == "apply_patch"@) {
            if tool_name == "apply_patch"@ {
                patch_lines(c)
            } else {
                seq![seq![(pad(), plain()), ("┌─ result ─"@, dim_style())]]
                    + first_n(lines_of(c), 20).map_values(|l: Seq<char>| detail_line(l))
                    + seq![seq![(pad(), plain()), ("└──────────"@, dim_style())]]
            }
        } else {
            Seq::empty()
        },
        None => Seq::empty(),
    }
}

/// Thinking: its size, and, when everything is expanded, its first 20 lines.
pub open spec fn thinking_model(text: Seq<char>, mode: ExpandMode, cols: nat) -> Seq<Seq<(Seq<char>, Style)>> {
    if mode == ExpandMode::All {
        seq![
            seq![
                ("THINK    "@, label_bold(Color::DarkGray)),
                ("▼ "@ + decimal(text.len()) + " chars"@, dim_style()),
            ],
        ] + wrapped_detail(first_n(lines_of(text), 20), sat_sub(cols, 2)) + seq![Seq::empty()]
    } else {
        seq![
            seq![
                ("THINK    "@, label_bold(Color::DarkGray)),
                ("▶ "@ + decimal(text.len()) + " chars"@, dim_style()),
            ],
            Seq::empty(),
        ]
    }
}

/// A run's result: a mark of success or failure with what it reports, and, when
/// everything is expanded, the first 20 lines of its text.
pub open spec fn run_result_model(
    is_error: bool,
    stop_reason: Option<Seq<char>>,
    num_turns: u64,
    cost: Option<Seq<char>>,
    duration_ms: u64,
    result_text: Option<Seq<char>>,
    mode: ExpandMode,
    cols: nat,
) -> Seq<Seq<(Seq<char>, Style)>> {
    let color = if is_error { Color::Red } else { Color::Green };
    let icon = if is_error { '✗' } else { '✓' };
    seq![
        seq![
            ("RESULT   "@, label_bold(color)),
            (
                seq![icon, ' '] + joined(result_parts(stop_reason, num_turns, cost, duration_ms), " · "@),
                fg_only(color),
            ),
        ],
    ] + (if mode == ExpandMode::All && result_text is Some {
        wrapped_detail(first_n(lines_of(result_text->0), 20), sat_sub(cols, 2))
    } else {
        Seq::empty()
    }) + seq![Seq::empty()]
}

/// The text an item shows as Markdown: an assistant's text (with a cursor while it
/// is still arriving) or a user's message.
pub open spec fn markdown_text(item: ItemModel) -> Option<Seq<char>> {
    match item {
        ItemModel::AssistantText { text, is_partial } => Some(if is_partial { text.push('▌') } else { text }),
        ItemModel::UserMessage { text } => Some(text),
        _ => None,
    }
}

/// The parser events of an item's Markdown text; none for other items.
pub open spec fn item_tokens(item: ItemModel) -> Seq<MdToken> {
    match markdown_text(item) {
        Some(t) => md_tokens_of(t),
        None => Seq::empty(),
    }
}

/// The lines of one transcript item. `cost` is the cost shown for it, `toks` the
/// parser events of its Markdown text.
pub open spec fn item_lines(
    item: ItemModel,
    cost: Option<Seq<char>>,
    toks: Seq<MdToken>,
    mode: ExpandMode,
    active: bool,
    query: Seq<char>,
    cols: nat,
) -> Seq<Seq<(Seq<char>, Style)>> {
    match item {
        ItemModel::SessionStart { model, tools, .. } => seq![
            seq![
                ("SESSION  "@, label_bold(Color::Green)),
                (truncated(model + " · "@ + decimal(tools.len()) + " tools"@, cols), fg_only(Color::Green)),
            ],
            Seq::empty(),
        ],
        ItemModel::AssistantText { .. } => markdown_item(toks, "ASSIST   "@, Color::Cyan, cols, active, query),
        ItemModel::UserMessage { .. } => markdown_item(toks, "USER     "@, Color::Blue, cols, active, query),
        ItemModel::ToolUse { name, summary, input } => tool_use_model(name, summary, input, mode, cols),
        ItemModel::ToolResult { tool_name, content, .. } => result_detail(tool_name, content, mode, cols),
        ItemModel::SubagentStart { description, .. } => seq![
            seq![
                ("AGENT    "@, label_bold(Color::Yellow)),
                (truncated(description, cols), fg_only(Color::Yellow)),
            ],
        ],
        ItemModel::SubagentProgress { description, tool_name } => seq![
            seq![
                ("  ├─     "@, fg_only(Color::Yellow)),
                (
                    truncated(
                        match tool_name {
                            Some(t) => t,
                            None => Seq::empty(),
                        } + "  "@ + description,
                        cols,
                    ),
                    dim_style(),
                ),
            ],
        ],
        ItemModel::SubagentEnd { summary, status, duration_ms, tool_uses, total_tokens, .. } => seq![
            seq![
                ("  └─     "@, fg_only(Color::Yellow)),
                (
                    joined(
                        subagent_parts(summary, status, cost, duration_ms, tool_uses, total_tokens),
                        " · "@,
                    ),
                    dim_style(),
                ),
            ],
            Seq::empty(),
        ],
        ItemModel::Error { message } => seq![
            seq![("ERROR    "@, label_bold(Color::Red)), (message, fg_only(Color::Red))],
        ],
        ItemModel::SystemEvent { label, detail } => seq![
            seq![("SYSTEM   "@, dim_style()), (label + ": "@ + detail, dim_style())],
        ],
        ItemModel::Thinking { text } => thinking_model(text, mode, cols),
        ItemModel::RunResult { is_error, stop_reason, num_turns, duration_ms, result_text, .. } =>
            run_result_model(is_error, stop_reason, num_turns, cost, duration_ms, result_text, mode, cols),
    }
}

/// Whether search matches are marked: the search shows and has a query.
pub open spec fn search_shows(visible: bool, query: Seq<char>) -> bool {
    visible && query.len() > 0
}

pub open spec fn costs_model(v: Seq<Option<String>>) -> Seq<Option<Seq<char>>> {
    v.map_values(|c: Option<String>| opt_str(c))
}

/// The transcript of `items`: the lines of each in turn.
pub open spec fn transcript_model(
    items: Seq<ItemModel>,
    costs: Seq<Option<Seq<char>>>,
    toks: Seq<Seq<MdToken>>,
    mode: ExpandMode,
    active: bool,
    query: Seq<char>,
    cols: nat,
) -> Seq<Seq<(Seq<char>, Style)>>
    decreases items.len(),
{
    if items.len() == 0 {
        Seq::empty()
    } else {
        let n = (items.len() - 1) as int;
        transcript_model(items.drop_last(), costs, toks, mode, active, query, cols) + item_lines(
            items[n],
            costs[n],
            toks[n],
            mode,
            active,
            query,
            cols,
        )
    }
}

// ---------------------------------------------------------------------------
// Building the lines
// ---------------------------------------------------------------------------


pub(crate) fn dec(n: u64) -> (r: String)
    ensures
        r@ == decimal(n as nat),
{
    let mut s = String::new();
    push_decimal(&mut s, n);
    s
}

/// `s` cut to `max_chars` characters, the last of them then `…`.
pub fn truncate(s: &str, max_chars: usize) -> (r: String)
    ensures
        r@ == truncated(s@, max_chars as nat),
{
    if max_chars == 0 {
        return String::new();
    }
    let cs = crate::text::chars_of(s);
    if cs.len() <= max_chars {
        return s.to_owned();
    }
    let mut out = crate::text::string_of_range(cs.as_slice(), 0, max_chars - 1);
    push_char(&mut out, '…');
    assert(out@ =~= s@.take(max_chars - 1).push('…'));
    out
}

/// Pieces of `text` of at most `max_cols` characters.
pub fn soft_wrap(text: &str, max_cols: usize) -> (r: Vec<String>)
    ensures
        r@.map_values(|s: String| s@) == soft_wrapped(text@, max_cols as nat),
{
    soft_wrap_plain(text, max_cols)
}

pub(crate) fn join(parts: &Vec<String>, sep: &str) -> (r: String)
    ensures
        r@ == joined(parts@.map_values(|p: String| p@), sep@),
{
    let ghost pm = parts@.map_values(|p: String| p@);
    let mut out = String::new();
    let mut i: usize = 0;
    assert(pm.take(0) =~= Seq::<Seq<char>>::empty());
    while i < parts.len()
        invariant
            i <= parts@.len(),
            pm == parts@.map_values(|p: String| p@),
            out@ == joined(pm.take(i as int), sep@),
        decreases parts.len() - i,
    {
        if i > 0 {
            crate::json::append_str(&mut out, sep);
        }
        crate::json::append_str(&mut out, parts[i].as_str());
        proof {
            let t = pm.take(i + 1);
            assert(t.drop_last() =~= pm.take(i as int));
            if i == 0 {
                assert(out@ =~= joined(t, sep@));
            } else {
                assert(out@ =~= joined(t, sep@));
            }
        }
        i = i + 1;
    }
    assert(pm.take(parts.len() as int) =~= pm);
    out
}

pub(crate) fn push_line(out: &mut Vec<StyledLine>, l: StyledLine)
    ensures
        lines_model(final(out)@) == lines_model(old(out)@).push(l.model()),
{
    let ghost m = l.model();
    out.push(l);
    assert(lines_model(out@) =~= lines_model(old(out)@).push(m));
}

pub(crate) fn extend(out: &mut Vec<StyledLine>, more: Vec<StyledLine>)
    ensures
        lines_model(final(out)@) == lines_model(old(out)@) + lines_model(more@),
{
    let ghost mm = lines_model(more@);
    let mut more = more;
    out.append(&mut more);
    assert(lines_model(out@) =~= lines_model(old(out)@) + mm);
}

pub(crate) fn spans_line(spans: Vec<Span>) -> (r: StyledLine)
    ensures
        r.model() == spans_model(spans@),
{
    StyledLine::from_spans(spans)
}

pub(crate) fn label_style(c: Color) -> (r: Style)
    ensures
        r == label_bold(c),
{
    Style::new().fg(c).add_modifier(Modifiers::bold())
}

fn detail(text: &str) -> (r: StyledLine)
    ensures
        r.model() == detail_line(text@),
{
    two_spans(Span::raw(pad_text()), Span::styled(bar_line(text), dim()))
}

/// The first `n` lines, as detail lines.
fn detail_lines(ls: &Vec<String>, n: usize) -> (r: Vec<StyledLine>)
    ensures
        lines_model(r@) == first_n(ls@.map_values(|l: String| l@), n as nat).map_values(
            |l: Seq<char>| detail_line(l),
        ),
{
    let ghost lm = ls@.map_values(|l: String| l@);
    let k = if ls.len() <= n { ls.len() } else { n };
    let ghost fl = first_n(lm, n as nat);
    assert(fl.len() == k);
    let mut out: Vec<StyledLine> = Vec::new();
    let mut i: usize = 0;
    assert(lines_model(out@) =~= fl.take(0).map_values(|l: Seq<char>| detail_line(l)));
    while i < k
        invariant
            i <= k,
            k == fl.len(),
            k <= ls@.len(),
            lm == ls@.map_values(|l: String| l@),
            fl == first_n(lm, n as nat),
            lines_model(out@) == fl.take(i as int).map_values(|l: Seq<char>| detail_line(l)),
        decreases k - i,
    {
        let l = detail(ls[i].as_str());
        assert(fl[i as int] == lm[i as int]);
        push_line(&mut out, l);
        assert(fl.take(i + 1).map_values(|l: Seq<char>| detail_line(l)) =~= fl.take(i as int).map_values(
            |l: Seq<char>| detail_line(l),
        ).push(detail_line(fl[i as int])));
        i = i + 1;
    }
    assert(fl.take(k as int) =~= fl);
    out
}

/// The first `n` lines, each wrapped at `w` columns, as detail lines.
fn wrapped_detail_lines(ls: &Vec<String>, n: usize, w: usize) -> (r: Vec<StyledLine>)
    ensures
        lines_model(r@) == wrapped_detail(first_n(ls@.map_values(|l: String| l@), n as nat), w as nat),
{
    let ghost lm = ls@.map_values(|l: String| l@);
    let k = if ls.len() <= n { ls.len() } else { n };
    let ghost fl = first_n(lm, n as nat);
    let mut out: Vec<StyledLine> = Vec::new();
    let mut i: usize = 0;
    assert(fl.take(0) =~= Seq::<Seq<char>>::empty());
    assert(lines_model(out@) =~= Seq::<Seq<(Seq<char>, Style)>>::empty());
    while i < k
        invariant
            i <= k,
            k == fl.len(),
            k <= ls@.len(),
            lm == ls@.map_values(|l: String| l@),
            fl == first_n(lm, n as nat),
            lines_model(out@) == wrapped_detail(fl.take(i as int), w as nat),
        decreases k - i,
    {
        let pieces = soft_wrap(ls[i].as_str(), w);
        let ghost pm = pieces@.map_values(|c: String| c@);
        let ghost base = lines_model(out@);
        let mut j: usize = 0;
        assert(base + pm.take(0).map_values(|c: Seq<char>| detail_line(c)) =~= base);
        while j < pieces.len()
            invariant
                j <= pieces@.len(),
                pm == pieces@.map_values(|c: String| c@),
                lines_model(out@) == base + pm.take(j as int).map_values(|c: Seq<char>| detail_line(c)),
            decreases pieces.len() - j,
        {
            let l = detail(pieces[j].as_str());
            push_line(&mut out, l);
            assert(pm.take(j + 1).map_values(|c: Seq<char>| detail_line(c)) =~= pm.take(j as int).map_values(
                |c: Seq<char>| detail_line(c),
            ).push(detail_line(pm[j as int])));
            j = j + 1;
        }
        proof {
            assert(pm.take(pieces.len() as int) =~= pm);
            assert(fl.take(i + 1).drop_last() =~= fl.take(i as int));
            assert(fl.take(i + 1).last() == lm[i as int]);
        }
        i = i + 1;
    }
    assert(fl.take(k as int) =~= fl);
    out
}

fn markdown_lines(text: &str, label: &str, color: Color, cols: usize, active: bool, query: &String) -> (r: (
    Vec<StyledLine>,
    Ghost<Seq<MdToken>>,
))
    ensures
        lines_model(r.0@) == markdown_item(r.1@, label@, color, cols as nat, active, query@),
        r.1@ == md_tokens_of(text@),
{
    let toks = markdown_tokens(text);
    let blocks = blocks_from_tokens(&toks, Style::new());
    let opts = MarkdownRenderOptions {
        label: copy_str(label),
        label_style: label_style(color),
        content_cols: cols,
        base_style: Style::new(),
        search_query: query.clone(),
        search_active: active,
    };
    (render_blocks(&blocks, &opts), Ghost(toks@))
}

fn tool_use_lines(
    name: &String,
    summary: &String,
    input: &Option<crate::json::JsonValue>,
    mode: ExpandMode,
    cols: usize,
    hl: &Highlighter,
) -> (r: Vec<StyledLine>)
    ensures
        lines_model(r@) == tool_use_model(name@, summary@, crate::run::opt_json(*input), mode, cols as nat),
{
    let nb = crate::ui::wrap::byte_count(name.as_str());
    let summary_max: usize = if (cols as u128) >= nb + 2 { (cols as u128 - (nb + 2)) as usize } else { 0 };
    let mut head: Vec<Span> = Vec::new();
    head.push(Span::styled(copy_str("TOOL     "), label_style(Color::Magenta)));
    head.push(Span::styled(name.clone(), Style::new().fg(Color::Red)));
    head.push(Span::raw(copy_str("  ")));
    head.push(Span::styled(truncate(summary.as_str(), summary_max), dim()));
    let hline = spans_line(head);
    let ghost hm = hline.model();
    assert(summary_max as nat == sat_sub(cols as nat, crate::ui::wrap::byte_len(name@) + 2));
    assert(hm =~= tool_use_head(name@, summary@, cols as nat));
    let mut out: Vec<StyledLine> = Vec::new();
    push_line(&mut out, hline);
    assert(lines_model(out@) =~= seq![hm]);
    match input {
        Some(j) => {
            let is_edit = str_eq(name.as_str(), "Edit");
            let show = match mode {
                ExpandMode::Off => false,
                ExpandMode::Edits => is_edit,
                ExpandMode::All => true,
            };
            if show {
                if is_edit {
                    extend(&mut out, render_edit(j, cols, hl));
                } else {
                    let text = j.to_pretty_text();
                    let ls = split_lines(text.as_str());
                    extend(&mut out, detail_lines(&ls, 15));
                }
            } else {
                assert(lines_model(out@) =~= seq![hm] + Seq::<Seq<(Seq<char>, Style)>>::empty());
            }
        },
        None => {
            assert(lines_model(out@) =~= seq![hm] + Seq::<Seq<(Seq<char>, Style)>>::empty());
        },
    }
    out
}

fn tool_result_lines(tool_name: &String, content: &Option<String>, mode: ExpandMode, cols: usize, hl: &Highlighter) -> (r: Vec<StyledLine>)
    ensures
        lines_model(r@) == result_detail(tool_name@, opt_str(*content), mode, cols as nat),
{
    let mut out: Vec<StyledLine> = Vec::new();
    assert(lines_model(out@) =~= Seq::<Seq<(Seq<char>, Style)>>::empty());
    match content {
        Some(c) => {
            let is_patch = str_eq(tool_name.as_str(), "apply_patch");
            let show = match mode {
                ExpandMode::Off => false,
                ExpandMode::Edits => is_patch,
                ExpandMode::All => true,
            };
            if show {
                if is_patch {
                    out = render_patch(c.as_str(), cols, hl);
                } else {
                    push_line(&mut out, two_spans(Span::raw(pad_text()), Span::styled(copy_str("┌─ result ─"), dim())));
                    let ls = split_lines(c.as_str());
                    extend(&mut out, detail_lines(&ls, 20));
                    push_line(&mut out, two_spans(Span::raw(pad_text()), Span::styled(copy_str("└──────────"), dim())));
                    let ghost a = seq![seq![(pad(), plain()), ("┌─ result ─"@, dim_style())]];
                    let ghost b = first_n(lines_of(c@), 20).map_values(|l: Seq<char>| detail_line(l));
                    let ghost e = seq![(pad(), plain()), ("└──────────"@, dim_style())];
                    assert(lines_model(out@) =~= a + b + seq![e]);
                }
            }
        },
        None => {},
    }
    out
}

fn subagent_end_lines(
    summary: &String,
    status: &String,
    cost: &Option<String>,
    duration_ms: Option<u64>,
    tool_uses: Option<u64>,
    total_tokens: Option<u64>,
) -> (r: Vec<StyledLine>)
    ensures
        lines_model(r@) == seq![
            seq![
                ("  └─     "@, fg_only(Color::Yellow)),
                (
                    joined(
                        subagent_parts(summary@, status@, opt_str(*cost), duration_ms, tool_uses, total_tokens),
                        " · "@,
                    ),
                    dim_style(),
                ),
            ],
            Seq::<(Seq<char>, Style)>::empty(),
        ],
{
    let mut parts: Vec<String> = Vec::new();
    parts.push(status.clone());
    let ghost dur_part: Seq<Seq<char>> = match duration_ms {
        Some(ms) => seq![
            if ms / 1000 / 60 > 0 {
                decimal((ms / 1000 / 60) as nat) + seq!['m']
            } else {
                decimal((ms / 1000) as nat) + seq!['s']
            },
        ],
        None => Seq::empty(),
    };
    let ghost tool_part: Seq<Seq<char>> = match tool_uses {
        Some(n) => seq![decimal(n as nat) + " tools"@],
        None => Seq::empty(),
    };
    let ghost tok_part: Seq<Seq<char>> = match total_tokens {
        Some(t) => seq![
            if t >= 1000 {
                decimal((t / 1000) as nat) + "k tok"@
            } else {
                decimal(t as nat) + " tok"@
            },
        ],
        None => Seq::empty(),
    };
    let ghost sum_part: Seq<Seq<char>> = if summary@.len() > 0 { seq![summary@] } else { Seq::empty() };
    assert(parts@.map_values(|p: String| p@) =~= seq![status@]);
    let ghost a0 = seq![status@];
    match duration_ms {
        Some(ms) => {
            let total_secs = ms / 1000;
            let mins = total_secs / 60;
            let mut d = if mins > 0 { dec(mins) } else { dec(total_secs) };
            push_char(&mut d, if mins > 0 { 'm' } else { 's' });
            assert(d@ =~= dur_part[0]);
            parts.push(d);
        },
        None => {},
    }
    assert(parts@.map_values(|p: String| p@) =~= a0 + dur_part);
    let ghost a1 = a0 + dur_part;
    match tool_uses {
        Some(n) => {
            let mut t = dec(n);
            crate::json::append_str(&mut t, " tools");
            parts.push(t);
        },
        None => {},
    }
    assert(parts@.map_values(|p: String| p@) =~= a1 + tool_part);
    let ghost a2 = a1 + tool_part;
    match total_tokens {
        Some(n) => {
            let mut t = if n >= 1000 { dec(n / 1000) } else { dec(n) };
            if n >= 1000 {
                crate::json::append_str(&mut t, "k tok");
            } else {
                crate::json::append_str(&mut t, " tok");
            }
            assert(t@ =~= tok_part[0]);
            parts.push(t);
        },
        None => {},
    }
    assert(parts@.map_values(|p: String| p@) =~= a2 + tok_part);
    let ghost a3 = a2 + tok_part;
    match cost {
        Some(c) => parts.push(c.clone()),
        None => {},
    }
    assert(parts@.map_values(|p: String| p@) =~= a3 + opt_part(opt_str(*cost)));
    let ghost a4 = a3 + opt_part(opt_str(*cost));
    if !summary.as_str().is_empty() {
        parts.push(summary.clone());
    }
    assert(parts@.map_values(|p: String| p@) =~= a4 + sum_part);
    assert(a4 + sum_part =~= subagent_parts(
        summary@,
        status@,
        opt_str(*cost),
        duration_ms,
        tool_uses,
        total_tokens,
    ));
    let text = join(&parts, " · ");
    let mut out: Vec<StyledLine> = Vec::new();
    push_line(&mut out, two_spans(Span::styled(copy_str("  └─     "), Style::new().fg(Color::Yellow)), Span::styled(text, dim())));
    push_line(&mut out, StyledLine::empty());
    out
}

fn thinking_lines(text: &String, mode: ExpandMode, cols: usize) -> (r: Vec<StyledLine>)
    ensures
        lines_model(r@) == thinking_model(text@, mode, cols as nat),
{
    let n = crate::ui::wrap::char_width(text.as_str());
    let mut head_text = copy_str(if mode == ExpandMode::All { "▼ " } else { "▶ " });
    push_decimal(&mut head_text, n as u64);
    crate::json::append_str(&mut head_text, " chars");
    let mut out: Vec<StyledLine> = Vec::new();
    push_line(&mut out, two_spans(Span::styled(copy_str("THINK    "), label_style(Color::DarkGray)), Span::styled(head_text, dim())));
    if mode == ExpandMode::All {
        let ls = split_lines(text.as_str());
        let w: usize = if cols >= 2 { cols - 2 } else { 0 };
        extend(&mut out, wrapped_detail_lines(&ls, 20, w));
    }
    push_line(&mut out, StyledLine::empty());
    if mode == ExpandMode::All {
        assert(lines_model(out@) =~= thinking_model(text@, mode, cols as nat));
    } else {
        assert(lines_model(out@) =~= thinking_model(text@, mode, cols as nat));
    }
    out
}

fn duration_text(duration_ms: u64) -> (r: Option<String>)
    ensures
        opt_part(opt_str(r)) == duration_parts(duration_ms),
{
    let total_secs = duration_ms / 1000;
    let mins = total_secs / 60;
    let secs = total_secs % 60;
    if mins > 0 {
        let mut d = dec(mins);
        crate::json::append_str(&mut d, "m ");
        if secs < 10 {
            push_char(&mut d, '0');
        }
        push_decimal(&mut d, secs);
        push_char(&mut d, 's');
        assert(d@ =~= decimal(mins as nat) + "m "@ + two_digits(secs as nat) + seq!['s']);
        Some(d)
    } else if total_secs > 0 {
        let mut d = dec(secs);
        push_char(&mut d, 's');
        assert(d@ =~= decimal(secs as nat) + seq!['s']);
        Some(d)
    } else {
        None
    }
}

#[verifier::rlimit(40)]
fn run_result_lines(
    is_error: bool,
    stop_reason: &Option<String>,
    num_turns: u64,
    cost: &Option<String>,
    duration_ms: u64,
    result_text: &Option<String>,
    mode: ExpandMode,
    cols: usize,
) -> (r: Vec<StyledLine>)
    ensures
        lines_model(r@) == run_result_model(
            is_error,
            opt_str(*stop_reason),
            num_turns,
            opt_str(*cost),
            duration_ms,
            opt_str(*result_text),
            mode,
            cols as nat,
        ),
{
    let color = if is_error { Color::Red } else { Color::Green };
    let mut parts: Vec<String> = Vec::new();
    match stop_reason {
        Some(s) => parts.push(s.clone()),
        None => {},
    }
    let ghost a0 = opt_part(opt_str(*stop_reason));
    assert(parts@.map_values(|p: String| p@) =~= a0);
    let mut turns = dec(num_turns);
    crate::json::append_str(&mut turns, " turns");
    parts.push(turns);
    let ghost a1 = a0 + seq![decimal(num_turns as nat) + " turns"@];
    assert(parts@.map_values(|p: String| p@) =~= a1);
    match cost {
        Some(c) => parts.push(c.clone()),
        None => {},
    }
    let ghost a2 = a1 + opt_part(opt_str(*cost));
    assert(parts@.map_values(|p: String| p@) =~= a2);
    match duration_text(duration_ms) {
        Some(d) => parts.push(d),
        None => {},
    }
    assert(parts@.map_values(|p: String| p@) =~= result_parts(
        opt_str(*stop_reason),
        num_turns,
        opt_str(*cost),
        duration_ms,
    ));
    let mut text = String::new();
    push_char(&mut text, if is_error { '✗' } else { '✓' });
    push_char(&mut text, ' ');
    let joined_parts = join(&parts, " · ");
    crate::json::append_str(&mut text, joined_parts.as_str());
    let mut out: Vec<StyledLine> = Vec::new();
    push_line(&mut out, two_spans(Span::styled(copy_str("RESULT   "), label_style(color)), Span::styled(text, Style::new().fg(color))));
    let ghost head = lines_model(out@);
    if mode == ExpandMode::All {
        match result_text {
            Some(t) => {
                let ls = split_lines(t.as_str());
                let w: usize = if cols >= 2 { cols - 2 } else { 0 };
                extend(&mut out, wrapped_detail_lines(&ls, 20, w));
            },
            None => {},
        }
    }
    let ghost mid = lines_model(out@);
    push_line(&mut out, StyledLine::empty());
    assert(lines_model(out@) =~~= run_result_model(
        is_error,
        opt_str(*stop_reason),
        num_turns,
        opt_str(*cost),
        duration_ms,
        opt_str(*result_text),
        mode,
        cols as nat,
    ));
    out
}

/// The lines of one transcript item, with the parser events its Markdown text
/// (if it has one) was read from.
fn item_lines_of(
    item: &TranscriptItem,
    cost: &Option<String>,
    mode: ExpandMode,
    active: bool,
    query: &String,
    cols: usize,
    hl: &Highlighter,
) -> (r: (Vec<StyledLine>, Ghost<Seq<MdToken>>))
    ensures
        lines_model(r.0@) == item_lines(item.model(), opt_str(*cost), r.1@, mode, active, query@, cols as nat),
        r.1@ == item_tokens(item.model()),
{
    let mut out: Vec<StyledLine> = Vec::new();
    match item {
        TranscriptItem::SessionStart { model, tools, .. } => {
            let mut t = model.clone();
            crate::json::append_str(&mut t, " · ");
            push_decimal(&mut t, tools.len() as u64);
            crate::json::append_str(&mut t, " tools");
            proof {
                assert(crate::run::strs_model(tools@).len() == tools@.len());
            }
            push_line(&mut out, two_spans(
                Span::styled(copy_str("SESSION  "), label_style(Color::Green)),
                Span::styled(truncate(t.as_str(), cols), Style::new().fg(Color::Green)),
            ));
            push_line(&mut out, StyledLine::empty());
            assert(lines_model(out@) =~= item_lines(item.model(), opt_str(*cost), Seq::empty(), mode, active, query@, cols as nat));
            (out, Ghost(Seq::empty()))
        },
        TranscriptItem::AssistantText { text, is_partial } => {
            let mut display = text.clone();
            if *is_partial {
                push_char(&mut display, '▌');
            }
            markdown_lines(display.as_str(), "ASSIST   ", Color::Cyan, cols, active, query)
        },
        TranscriptItem::UserMessage { text } => markdown_lines(text.as_str(), "USER     ", Color::Blue, cols, active, query),
        TranscriptItem::ToolUse { name, summary, input } => (tool_use_lines(name, summary, input, mode, cols, hl), Ghost(Seq::empty())),
        TranscriptItem::ToolResult { tool_name, content, .. } => (tool_result_lines(tool_name, content, mode, cols, hl), Ghost(Seq::empty())),
        TranscriptItem::SubagentStart { description, .. } => {
            push_line(&mut out, two_spans(
                Span::styled(copy_str("AGENT    "), label_style(Color::Yellow)),
                Span::styled(truncate(description.as_str(), cols), Style::new().fg(Color::Yellow)),
            ));
            assert(lines_model(out@) =~= item_lines(item.model(), opt_str(*cost), Seq::empty(), mode, active, query@, cols as nat));
            (out, Ghost(Seq::empty()))
        },
        TranscriptItem::SubagentProgress { description, tool_name } => {
            let mut t = match tool_name {
                Some(n) => n.clone(),
                None => String::new(),
            };
            crate::json::append_str(&mut t, "  ");
            crate::json::append_str(&mut t, description.as_str());
            assert(t@ =~= match crate::run::opt_str(*tool_name) {
                Some(x) => x,
                None => Seq::empty(),
            } + "  "@ + description@);
            push_line(&mut out, two_spans(
                Span::styled(copy_str("  ├─     "), Style::new().fg(Color::Yellow)),
                Span::styled(truncate(t.as_str(), cols), dim()),
            ));
            assert(lines_model(out@) =~~= item_lines(item.model(), opt_str(*cost), Seq::empty(), mode, active, query@, cols as nat));
            (out, Ghost(Seq::empty()))
        },
        TranscriptItem::SubagentEnd { summary, status, duration_ms, tool_uses, total_tokens, .. } => (
            subagent_end_lines(summary, status, cost, *duration_ms, *tool_uses, *total_tokens),
            Ghost(Seq::empty()),
        ),
        TranscriptItem::Error { message } => {
            push_line(&mut out, two_spans(
                Span::styled(copy_str("ERROR    "), label_style(Color::Red)),
                Span::styled(message.clone(), Style::new().fg(Color::Red)),
            ));
            assert(lines_model(out@) =~= item_lines(item.model(), opt_str(*cost), Seq::empty(), mode, active, query@, cols as nat));
            (out, Ghost(Seq::empty()))
        },
        TranscriptItem::SystemEvent { label, detail } => {
            let mut t = label.clone();
            crate::json::append_str(&mut t, ": ");
            crate::json::append_str(&mut t, detail.as_str());
            push_line(&mut out, two_spans(Span::styled(copy_str("SYSTEM   "), dim()), Span::styled(t, dim())));
            assert(lines_model(out@) =~= item_lines(item.model(), opt_str(*cost), Seq::empty(), mode, active, query@, cols as nat));
            (out, Ghost(Seq::empty()))
        },
        TranscriptItem::Thinking { text } => (thinking_lines(text, mode, cols), Ghost(Seq::empty())),
        TranscriptItem::RunResult { is_error, stop_reason, num_turns, duration_ms, result_text, .. } => (
            run_result_lines(*is_error, stop_reason, *num_turns, cost, *duration_ms, result_text, mode, cols),
            Ghost(Seq::empty()),
        ),
    }
}

/// The transcript of a run's items as screen lines, `content_cols` columns wide
/// after the labels. Tool input, tool output, thinking and result text show as
/// `expand_mode` says; while `search_visible` and the query is not empty, its
/// matches are marked. `cost_labels` holds, for each item, the cost it shows.
/// Each Markdown text is laid out from the parser events pulldown_cmark reports
/// for it.
pub fn transcript_lines(
    items: &Vec<TranscriptItem>,
    expand_mode: ExpandMode,
    query: &String,
    search_visible: bool,
    content_cols: usize,
    cost_labels: &Vec<Option<String>>,
    hl: &Highlighter,
) -> (r: Vec<StyledLine>)
    requires
        cost_labels@.len() == items@.len(),
    ensures
        lines_model(r@) == transcript_model(
            items_model(items@),
            costs_model(cost_labels@),
            items_model(items@).map_values(|it: ItemModel| item_tokens(it)),
            expand_mode,
            search_shows(search_visible, query@),
            query@,
            content_cols as nat,
        ),
{
    let active = search_visible && !query.as_str().is_empty();
    let ghost im = items_model(items@);
    let ghost cm = costs_model(cost_labels@);
    let ghost mut toks: Seq<Seq<MdToken>> = Seq::empty();
    let mut lines: Vec<StyledLine> = Vec::new();
    let mut i: usize = 0;
    assert(lines_model(lines@) =~= Seq::<Seq<(Seq<char>, Style)>>::empty());
    while i < items.len()
        invariant
            i <= items@.len(),
            cost_labels@.len() == items@.len(),
            im == items_model(items@),
            cm == costs_model(cost_labels@),
            active == (search_visible && query@.len() > 0),
            toks.len() == i,
            toks == im.take(i as int).map_values(|it: ItemModel| item_tokens(it)),
            lines_model(lines@) == transcript_model(im.take(i as int), cm, toks, expand_mode, active, query@, content_cols as nat),
        decreases items.len() - i,
    {
        let (more, t) = item_lines_of(&items[i], &cost_labels[i], expand_mode, active, query, content_cols, hl);
        proof {
            let tk = toks.push(t@);
            let imt = im.take(i + 1);
            assert(imt.drop_last() =~= im.take(i as int));
            assert(imt[i as int] == items@[i as int].model());
            assert(cm[i as int] == opt_str(cost_labels@[i as int]));
            assert(transcript_model(im.take(i as int), cm, tk, expand_mode, active, query@, content_cols as nat)
                == transcript_model(im.take(i as int), cm, toks, expand_mode, active, query@, content_cols as nat)) by {
                lemma_transcript_prefix(im.take(i as int), cm, toks, tk, expand_mode, active, query@, content_cols as nat);
            }
            assert(tk =~= imt.map_values(|it: ItemModel| item_tokens(it)));
            toks = tk;
        }
        extend(&mut lines, more);
        i = i + 1;
    }
    assert(im.take(items.len() as int) =~= im);
    assert(toks =~= im.map_values(|it: ItemModel| item_tokens(it)));
    assert(lines_model(lines@) == transcript_model(
        items_model(items@),
        costs_model(cost_labels@),
        toks,
        expand_mode,
        search_shows(search_visible, query@),
        query@,
        content_cols as nat,
    ));
    lines
}

/// The transcript of a run's items depends on the events of their own Markdown
/// texts only.
proof fn lemma_transcript_prefix(
    items: Seq<ItemModel>,
    costs: Seq<Option<Seq<char>>>,
    a: Seq<Seq<MdToken>>,
    b: Seq<Seq<MdToken>>,
    mode: ExpandMode,
    active: bool,
    query: Seq<char>,
    cols: nat,
)
    requires
        a.len() >= items.len(),
        b.len() >= items.len(),
        forall|k: int| 0 <= k < items.len() ==> a[k] == b[k],
    ensures
        transcript_model(items, costs, a, mode, active, query, cols) == transcript_model(
            items,
            costs,
            b,
            mode,
            active,
            query,
            cols,
        ),
    decreases items.len(),
{
    if items.len() > 0 {
        lemma_transcript_prefix(items.drop_last(), costs, a, b, mode, active, query, cols);
    }
}

// ---------------------------------------------------------------------------
// The pane
// ---------------------------------------------------------------------------

/// The title of the transcript pane, naming the expand mode.
pub open spec fn title_of(mode: ExpandMode) -> Seq<char> {
    match mode {
        ExpandMode::Off => " Transcript "@,
        ExpandMode::Edits => " Transcript [edits] "@,
        ExpandMode::All => " Transcript [all] "@,
    }
}

pub fn transcript_title(mode: ExpandMode) -> (r: String)
    ensures
        r@ == title_of(mode),
{
    match mode {
        ExpandMode::Off => copy_str(" Transcript "),
        ExpandMode::Edits => copy_str(" Transcript [edits] "),
        ExpandMode::All => copy_str(" Transcript [all] "),
    }
}

/// The border of a pane: blue when it has the focus, dim otherwise.
pub fn pane_border(focused: bool) -> (r: Style)
    ensures
        r == (if focused { fg_only(Color::Blue) } else { dim_style() }),
{
    if focused {
        Style::new().fg(Color::Blue)
    } else {
        dim()
    }
}

/// What the transcript pane says in place of a transcript: that no run has come
/// yet, that none is selected, or that the selected one has no item yet.
pub open spec fn placeholder_of(app: crate::app::AppModel) -> Option<Seq<char>> {
    match app.selected_run {
        Some(i) if i < app.runs.len() => if app.runs[i as int].items.len() == 0 {
            Some("Parsing..."@)
        } else {
            None
        },
        _ => Some(if app.runs.len() == 0 { "Waiting for runs..."@ } else { "Select a run"@ }),
    }
}

pub fn transcript_placeholder(app: &App) -> (r: Option<String>)
    ensures
        opt_str(r) == placeholder_of(app.model()),
{
    match app.selected_run() {
        None => Some(if app.runs.len() == 0 { copy_str("Waiting for runs...") } else { copy_str("Select a run") }),
        Some(run) => {
            proof {
                assert(app.model().runs[app.selected_run->0 as int] == run.model());
                assert(crate::run::items_model(run.items@).len() == run.items@.len());
            }
            if run.items.len() == 0 {
                Some(copy_str("Parsing..."))
            } else {
                None
            }
        },
    }
}

/// The columns for text: the pane's inner width less the labels.
pub fn content_width(inner_width: usize) -> (r: usize)
    ensures
        r == sat_sub(inner_width as nat, LABEL_WIDTH as nat),
{
    if inner_width >= LABEL_WIDTH {
        inner_width - LABEL_WIDTH
    } else {
        0
    }
}

/// The scroll position once `total` lines are laid out in `visible` rows: the end
/// while following, and never past the end.
pub open spec fn scroll_of(total: nat, visible: nat, follow: bool, offset: nat) -> nat {
    let s = if follow && total > visible { (total - visible) as nat } else { offset };
    let max = sat_sub(total, visible);
    if s > max {
        max
    } else {
        s
    }
}

pub fn follow_scroll(total: usize, visible: usize, auto_follow: bool, scroll_offset: usize) -> (r: usize)
    ensures
        r == scroll_of(total as nat, visible as nat, auto_follow, scroll_offset as nat),
{
    let mut s = scroll_offset;
    if auto_follow && total > visible {
        s = total - visible;
    }
    let max_scroll = if total >= visible { total - visible } else { 0 };
    if s > max_scroll {
        s = max_scroll;
    }
    s
}

/// What transcript lines were laid out for.
pub struct CacheKey {
    pub run_id: Option<usize>,
    pub item_count: usize,
    pub expand_mode: ExpandMode,
    pub query: String,
    pub search_visible: bool,
    pub content_cols: usize,
}

/// Transcript lines laid out once, kept while nothing they depend on changes.
pub struct TranscriptCache {
    pub lines: Vec<StyledLine>,
    pub key: Option<CacheKey>,
}

pub open spec fn key_matches(
    k: Option<CacheKey>,
    run_id: Option<usize>,
    item_count: usize,
    expand_mode: ExpandMode,
    query: Seq<char>,
    search_visible: bool,
    content_cols: usize,
) -> bool {
    match k {
        Some(k) => k.run_id == run_id && k.item_count == item_count && k.expand_mode == expand_mode
            && k.query@ == query && k.search_visible == search_visible && k.content_cols == content_cols,
        None => false,
    }
}

impl TranscriptCache {
    pub open spec fn valid_for(
        &self,
        run_id: Option<usize>,
        item_count: usize,
        expand_mode: ExpandMode,
        query: Seq<char>,
        search_visible: bool,
        content_cols: usize,
    ) -> bool {
        key_matches(self.key, run_id, item_count, expand_mode, query, search_visible, content_cols)
    }

    /// No lines, valid for nothing.
    pub fn new() -> (r: TranscriptCache)
        ensures
            r.lines@.len() == 0,
            forall|run_id: Option<usize>, n: usize, m: ExpandMode, q: Seq<char>, v: bool, c: usize|
                !#[trigger] r.valid_for(run_id, n, m, q, v, c),
    {
        TranscriptCache { lines: Vec::new(), key: None }
    }

    /// Whether the kept lines were laid out for exactly these inputs.
    pub fn is_valid(
        &self,
        run_id: Option<usize>,
        item_count: usize,
        expand_mode: ExpandMode,
        query: &str,
        search_visible: bool,
        content_cols: usize,
    ) -> (r: bool)
        ensures
            r == self.valid_for(run_id, item_count, expand_mode, query@, search_visible, content_cols),
    {
        match &self.key {
            Some(k) => k.run_id == run_id && k.item_count == item_count && k.expand_mode == expand_mode
                && str_eq(k.query.as_str(), query) && k.search_visible == search_visible
                && k.content_cols == content_cols,
            None => false,
        }
    }

    /// Keeps `lines` as laid out for these inputs.
    pub fn store(
        &mut self,
        lines: Vec<StyledLine>,
        run_id: Option<usize>,
        item_count: usize,
        expand_mode: ExpandMode,
        query: &str,
        search_visible: bool,
        content_cols: usize,
    )
        ensures
            final(self).lines@ == lines@,
            forall|r: Option<usize>, n: usize, m: ExpandMode, q: Seq<char>, v: bool, c: usize|
                #[trigger] final(self).valid_for(r, n, m, q, v, c) <==> (r == run_id && n == item_count && m
                    == expand_mode && q == query@ && v == search_visible && c == content_cols),
    {
        self.lines = lines;
        self.key = Some(
            CacheKey {
                run_id,
                item_count,
                expand_mode,
                query: query.to_owned(),
                search_visible,
                content_cols,
            },
        );
    }
}

// ---------------------------------------------------------------------------
// Laws
// ---------------------------------------------------------------------------

/// A cut text never takes more than its room; a text that fits is left whole, and
/// one that does not ends in an ellipsis.
pub proof fn law_truncate_fits(s: Seq<char>, max: nat)
    ensures
        truncated(s, max).len() <= max,
        s.len() <= max ==> truncated(s, max) == s,
        s.len() > max && max > 0 ==> truncated(s, max).len() == max && truncated(s, max).last() == '…'
            && truncated(s, max).drop_last() == s.take(max - 1),
{
}

/// Following the live run shows the last lines; the scroll position never goes
/// past the last screenful.
pub proof fn law_follow_shows_the_end(total: nat, visible: nat, follow: bool, offset: nat)
    ensures
        scroll_of(total, visible, follow, offset) <= sat_sub(total, visible),
        follow && total > visible ==> scroll_of(total, visible, follow, offset) == total - visible,
        !follow && offset <= sat_sub(total, visible) ==> scroll_of(total, visible, follow, offset) == offset,
{
}

/// Every Markdown text takes at least one line, its label starting the first.
pub proof fn law_markdown_item_labelled(toks: Seq<MdToken>, label: Seq<char>, color: Color, cols: nat, active: bool, query: Seq<char>)
    ensures
        markdown_item(toks, label, color, cols, active, query).len() > 0,
{
}

/// With expansion off, detail stays hidden: a tool call takes its one line, a
/// tool result none, and thinking its size line and a blank line.
pub proof fn law_collapsed_hides_detail(
    item: ItemModel,
    cost: Option<Seq<char>>,
    toks: Seq<MdToken>,
    active: bool,
    query: Seq<char>,
    cols: nat,
)
    ensures
        item is ToolUse ==> item_lines(item, cost, toks, ExpandMode::Off, active, query, cols).len() == 1,
        item is ToolResult ==> item_lines(item, cost, toks, ExpandMode::Off, active, query, cols).len() == 0,
        item is Thinking ==> item_lines(item, cost, toks, ExpandMode::Off, active, query, cols).len() == 2,
{
}

/// A run result's line is marked by its outcome: a failed run shows `✗` in red, a
/// successful one `✓` in green, after the `RESULT` label.
pub proof fn law_result_mark_follows_outcome(
    item: ItemModel,
    cost: Option<Seq<char>>,
    toks: Seq<MdToken>,
    mode: ExpandMode,
    active: bool,
    query: Seq<char>,
    cols: nat,
)
    requires
        item is RunResult,
    ensures
        ({
            let first = item_lines(item, cost, toks, mode, active, query, cols)[0];
            let failed = item->RunResult_is_error;
            &&& first[0].0 == "RESULT   "@
            &&& first[1].0[0] == (if failed { '✗' } else { '✓' })
            &&& first[1].1.fg == Some(if failed { Color::Red } else { Color::Green })
            &&& (first[1].0[0] == '✗') == failed
        }),
{
}

} // verus!
