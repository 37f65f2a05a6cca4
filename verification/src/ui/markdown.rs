//! Markdown in the transcript: the blocks a text is made of, and the screen lines
//! they take.
use pulldown_cmark::CodeBlockKind::{Fenced, Indented};
use pulldown_cmark::Event::{Code, End, HardBreak, Rule, SoftBreak, Start, TaskListMarker, Text};
use pulldown_cmark::Tag::{BlockQuote, CodeBlock, Emphasis, Heading, Item, Link, List, Paragraph, Strong};
use pulldown_cmark::TagEnd as E;
use pulldown_cmark::{Options, Parser};

use crate::run::opt_str;
use crate::text::{decimal, lines_of, push_char, push_decimal, split_lines};
use crate::ui::style::{
    layered, lines_model, no_modifiers, plain, spans_model, with_bg, with_fg, with_mods, Color,
    Modifiers, Span, Style, StyledLine,
};
pub use crate::ui::wrap::{soft_wrap_plain, MarkdownRenderOptions};
use crate::ui::wrap::{soft_wrapped, wrap_chunks, wrap_lines};
use vstd::prelude::*;

verus! {

// ---------------------------------------------------------------------------
// Blocks
// ---------------------------------------------------------------------------

/// A piece of inline text and its style.
pub struct StyledChunk {
    pub text: String,
    pub style: Style,
}

/// A block of a Markdown text.
pub enum MdBlock {
    Paragraph(Vec<StyledChunk>),
    Heading { level: u8, content: Vec<StyledChunk> },
    CodeFence { language: Option<String>, text: String },
    BulletList(Vec<Vec<StyledChunk>>),
    OrderedList { start: u64, items: Vec<Vec<StyledChunk>> },
    Quote(Vec<StyledChunk>),
    ThematicBreak,
}

/// An open block that inline text is collected into.
pub enum Container {
    Paragraph(Vec<StyledChunk>),
    Heading { level: u8, content: Vec<StyledChunk> },
    Quote(Vec<StyledChunk>),
    List(ListState),
}

/// An open list: the items closed so far and the one being filled.
pub struct ListState {
    pub ordered: bool,
    pub start: u64,
    pub items: Vec<Vec<StyledChunk>>,
    pub current_item: Vec<StyledChunk>,
}

/// What the Markdown parser reports, one event at a time.
pub enum MdToken {
    StartParagraph,
    StartHeading(u8),
    StartQuote,
    /// A code block; its info string when it is fenced.
    StartCodeBlock(Option<String>),
    /// A list; its first number when it is ordered.
    StartList(Option<u64>),
    StartItem,
    StartEmphasis,
    StartStrong,
    StartLink,
    StartOther,
    EndParagraph,
    EndHeading,
    EndQuote,
    EndCodeBlock,
    EndList,
    EndItem,
    EndEmphasis,
    EndStrong,
    EndLink,
    EndOther,
    Text(String),
    Code(String),
    SoftBreak,
    HardBreak,
    Rule,
    TaskListMarker(bool),
    Other,
}

// ---------------------------------------------------------------------------
// Models
// ---------------------------------------------------------------------------

pub enum BlockM {
    Paragraph(Seq<(Seq<char>, Style)>),
    Heading { level: u8, content: Seq<(Seq<char>, Style)> },
    CodeFence { language: Option<Seq<char>>, text: Seq<char> },
    BulletList(Seq<Seq<(Seq<char>, Style)>>),
    OrderedList { start: u64, items: Seq<Seq<(Seq<char>, Style)>> },
    Quote(Seq<(Seq<char>, Style)>),
    ThematicBreak,
}

pub enum ContainerM {
    Paragraph(Seq<(Seq<char>, Style)>),
    Heading { level: u8, content: Seq<(Seq<char>, Style)> },
    Quote(Seq<(Seq<char>, Style)>),
    List {
        ordered: bool,
        start: u64,
        items: Seq<Seq<(Seq<char>, Style)>>,
        current: Seq<(Seq<char>, Style)>,
    },
}

/// The parse in progress: blocks closed, blocks open, the style stack and an open
/// code block (its language and text).
pub struct MdState {
    pub blocks: Seq<BlockM>,
    pub containers: Seq<ContainerM>,
    pub styles: Seq<Style>,
    pub fence: Option<(Option<Seq<char>>, Seq<char>)>,
}

impl StyledChunk {
    pub open spec fn model(&self) -> (Seq<char>, Style) {
        (self.text@, self.style)
    }
}

pub open spec fn chunks_model(v: Seq<StyledChunk>) -> Seq<(Seq<char>, Style)> {
    v.map_values(|c: StyledChunk| c.model())
}

pub open spec fn items_model(v: Seq<Vec<StyledChunk>>) -> Seq<Seq<(Seq<char>, Style)>> {
    v.map_values(|c: Vec<StyledChunk>| chunks_model(c@))
}

impl MdBlock {
    pub open spec fn model(&self) -> BlockM {
        match self {
            MdBlock::Paragraph(c) => BlockM::Paragraph(chunks_model(c@)),
            MdBlock::Heading { level, content } => BlockM::Heading {
                level: *level,
                content: chunks_model(content@),
            },
            MdBlock::CodeFence { language, text } => BlockM::CodeFence {
                language: opt_str(*language),
                text: text@,
            },
            MdBlock::BulletList(items) => BlockM::BulletList(items_model(items@)),
            MdBlock::OrderedList { start, items } => BlockM::OrderedList {
                start: *start,
                items: items_model(items@),
            },
            MdBlock::Quote(c) => BlockM::Quote(chunks_model(c@)),
            MdBlock::ThematicBreak => BlockM::ThematicBreak,
        }
    }
}

impl Container {
    pub open spec fn model(&self) -> ContainerM {
        match self {
            Container::Paragraph(c) => ContainerM::Paragraph(chunks_model(c@)),
            Container::Heading { level, content } => ContainerM::Heading {
                level: *level,
                content: chunks_model(content@),
            },
            Container::Quote(c) => ContainerM::Quote(chunks_model(c@)),
            Container::List(l) => ContainerM::List {
                ordered: l.ordered,
                start: l.start,
                items: items_model(l.items@),
                current: chunks_model(l.current_item@),
            },
        }
    }
}

pub open spec fn blocks_model(v: Seq<MdBlock>) -> Seq<BlockM> {
    v.map_values(|b: MdBlock| b.model())
}

pub open spec fn containers_model(v: Seq<Container>) -> Seq<ContainerM> {
    v.map_values(|c: Container| c.model())
}

// ---------------------------------------------------------------------------
// The parse, one event at a time
// ---------------------------------------------------------------------------

/// What `str::trim` leaves of a text.
pub open spec fn trimmed(s: Seq<char>) -> Seq<char> {
    without_trailing_ws(without_leading_ws(s))
}

/// Unicode `White_Space`, which `str::trim` strips.
pub open spec fn is_white_space(c: char) -> bool {
    ('\u{9}' <= c <= '\u{d}') || c == ' ' || c == '\u{85}' || c == '\u{a0}' || c == '\u{1680}'
        || ('\u{2000}' <= c <= '\u{200a}') || c == '\u{2028}' || c == '\u{2029}' || c == '\u{202f}'
        || c == '\u{205f}' || c == '\u{3000}'
}

/// A text without its leading white space.
pub open spec fn without_leading_ws(s: Seq<char>) -> Seq<char>
    decreases s.len(),
{
    if s.len() > 0 && is_white_space(s[0]) {
        without_leading_ws(s.drop_first())
    } else {
        s
    }
}

/// A text without its trailing white space.
pub open spec fn without_trailing_ws(s: Seq<char>) -> Seq<char>
    decreases s.len(),
{
    if s.len() > 0 && is_white_space(s.last()) {
        without_trailing_ws(s.drop_last())
    } else {
        s
    }
}

/// A fenced block's language: its info string trimmed, when anything is left.
pub open spec fn fence_language(info: Option<Seq<char>>) -> Option<Seq<char>> {
    match info {
        Some(l) => if trimmed(l).len() == 0 {
            None
        } else {
            Some(trimmed(l))
        },
        None => None,
    }
}

pub open spec fn top_style(styles: Seq<Style>) -> Style {
    if styles.len() > 0 {
        styles.last()
    } else {
        plain()
    }
}

pub open spec fn newline_text() -> Seq<char> {
    seq!['\n']
}

/// The text a closed block hands to an enclosing quote or list item.
pub open spec fn inline_text(b: BlockM) -> Option<Seq<(Seq<char>, Style)>> {
    match b {
        BlockM::Paragraph(c) => Some(c),
        BlockM::Quote(c) => Some(c),
        BlockM::Heading { content, .. } => Some(content),
        _ => None,
    }
}

/// A closed block goes into the enclosing quote or list item when it has inline
/// text and one encloses it; otherwise it joins the finished blocks.
pub open spec fn after_block(
    blocks: Seq<BlockM>,
    containers: Seq<ContainerM>,
    b: BlockM,
) -> (Seq<BlockM>, Seq<ContainerM>) {
    if containers.len() > 0 && inline_text(b) is Some {
        let t = inline_text(b)->0;
        match containers.last() {
            ContainerM::Quote(content) => (
                blocks,
                containers.drop_last().push(
                    ContainerM::Quote((content + t).push((newline_text(), plain()))),
                ),
            ),
            ContainerM::List { ordered, start, items, current } => (
                blocks,
                containers.drop_last().push(
                    ContainerM::List { ordered, start, items, current: current + t },
                ),
            ),
            _ => (blocks.push(b), containers),
        }
    } else {
        (blocks.push(b), containers)
    }
}

/// Inline text goes into the innermost open block, if there is one.
pub open spec fn after_inline(
    containers: Seq<ContainerM>,
    chunk: (Seq<char>, Style),
) -> Seq<ContainerM> {
    if containers.len() > 0 {
        containers.drop_last().push(
            match containers.last() {
                ContainerM::Paragraph(c) => ContainerM::Paragraph(c.push(chunk)),
                ContainerM::Heading { level, content } => ContainerM::Heading {
                    level,
                    content: content.push(chunk),
                },
                ContainerM::Quote(c) => ContainerM::Quote(c.push(chunk)),
                ContainerM::List { ordered, start, items, current } => ContainerM::List {
                    ordered,
                    start,
                    items,
                    current: current.push(chunk),
                },
            },
        )
    } else {
        containers
    }
}

pub open spec fn with_block(st: MdState, b: BlockM, containers: Seq<ContainerM>) -> MdState {
    let (bs, cs) = after_block(st.blocks, containers, b);
    MdState { blocks: bs, containers: cs, ..st }
}

pub open spec fn with_inline(st: MdState, text: Seq<char>, style: Style) -> MdState {
    MdState { containers: after_inline(st.containers, (text, style)), ..st }
}

pub open spec fn task_marker(checked: bool) -> Seq<char> {
    if checked {
        seq!['[', 'x', ']', ' ']
    } else {
        seq!['[', ' ', ']', ' ']
    }
}

pub open spec fn code_style(s: Style) -> Style {
    with_fg(with_bg(s, Color::DarkGray), Color::Yellow)
}

pub open spec fn link_style(s: Style) -> Style {
    with_mods(with_fg(s, Color::Blue), Modifiers { underlined: true, ..crate::ui::style::no_modifiers() })
}

/// Closing a block: the innermost open block leaves the stack and, when it is of
/// the kind being closed, becomes a block.
pub open spec fn close(st: MdState, t: MdToken) -> MdState {
    if st.containers.len() == 0 {
        st
    } else {
        let rest = st.containers.drop_last();
        match (t, st.containers.last()) {
            (MdToken::EndParagraph, ContainerM::Paragraph(c)) => with_block(st, BlockM::Paragraph(c), rest),
            (MdToken::EndHeading, ContainerM::Heading { level, content }) => with_block(
                st,
                BlockM::Heading { level, content },
                rest,
            ),
            (MdToken::EndQuote, ContainerM::Quote(c)) => with_block(st, BlockM::Quote(c), rest),
            (MdToken::EndList, ContainerM::List { ordered, start, items, .. }) => with_block(
                st,
                if ordered {
                    BlockM::OrderedList { start, items }
                } else {
                    BlockM::BulletList(items)
                },
                rest,
            ),
            _ => MdState { containers: rest, ..st },
        }
    }
}

/// One event of the parse.
pub open spec fn md_step(st: MdState, t: MdToken) -> MdState {
    let cur = top_style(st.styles);
    if st.fence is Some {
        let (lang, code) = st.fence->0;
        match t {
            MdToken::EndCodeBlock => with_block(
                MdState { fence: None, ..st },
                BlockM::CodeFence { language: lang, text: code },
                st.containers,
            ),
            MdToken::Text(s) => MdState { fence: Some((lang, code + s@)), ..st },
            MdToken::Code(s) => MdState { fence: Some((lang, code + s@)), ..st },
            MdToken::SoftBreak => MdState { fence: Some((lang, code + newline_text())), ..st },
            MdToken::HardBreak => MdState { fence: Some((lang, code + newline_text())), ..st },
            _ => st,
        }
    } else {
        match t {
            MdToken::StartParagraph => MdState {
                containers: st.containers.push(ContainerM::Paragraph(Seq::empty())),
                ..st
            },
            MdToken::StartHeading(level) => MdState {
                containers: st.containers.push(ContainerM::Heading { level, content: Seq::empty() }),
                ..st
            },
            MdToken::StartQuote => MdState {
                containers: st.containers.push(ContainerM::Quote(Seq::empty())),
                ..st
            },
            MdToken::StartCodeBlock(info) => MdState {
                fence: Some((fence_language(opt_str(info)), Seq::empty())),
                ..st
            },
            MdToken::StartList(first) => MdState {
                containers: st.containers.push(
                    ContainerM::List {
                        ordered: first is Some,
                        start: match first {
                            Some(n) => n,
                            None => 1,
                        },
                        items: Seq::empty(),
                        current: Seq::empty(),
                    },
                ),
                ..st
            },
            MdToken::StartEmphasis => MdState {
                styles: st.styles.push(with_mods(cur, Modifiers { italic: true, ..crate::ui::style::no_modifiers() })),
                ..st
            },
            MdToken::StartStrong => MdState {
                styles: st.styles.push(with_mods(cur, Modifiers { bold: true, ..crate::ui::style::no_modifiers() })),
                ..st
            },
            MdToken::StartLink => MdState { styles: st.styles.push(link_style(cur)), ..st },
            MdToken::EndParagraph => close(st, t),
            MdToken::EndHeading => close(st, t),
            MdToken::EndQuote => close(st, t),
            MdToken::EndList => close(st, t),
            MdToken::EndItem => if st.containers.len() > 0 && st.containers.last() is List {
                match st.containers.last() {
                    ContainerM::List { ordered, start, items, current } => if current.len() > 0 {
                        MdState {
                            containers: st.containers.drop_last().push(
                                ContainerM::List {
                                    ordered,
                                    start,
                                    items: items.push(current),
                                    current: Seq::empty(),
                                },
                            ),
                            ..st
                        }
                    } else {
                        st
                    },
                    _ => st,
                }
            } else {
                st
            },
            MdToken::EndEmphasis => if st.styles.len() > 1 {
                MdState { styles: st.styles.drop_last(), ..st }
            } else {
                st
            },
            MdToken::EndStrong => if st.styles.len() > 1 {
                MdState { styles: st.styles.drop_last(), ..st }
            } else {
                st
            },
            MdToken::EndLink => if st.styles.len() > 1 {
                MdState { styles: st.styles.drop_last(), ..st }
            } else {
                st
            },
            MdToken::Text(s) => with_inline(st, s@, cur),
            MdToken::Code(s) => with_inline(st, s@, code_style(cur)),
            MdToken::SoftBreak => with_inline(st, seq![' '], cur),
            MdToken::HardBreak => with_inline(st, newline_text(), cur),
            MdToken::Rule => MdState { blocks: st.blocks.push(BlockM::ThematicBreak), ..st },
            MdToken::TaskListMarker(checked) => with_inline(st, task_marker(checked), cur),
            _ => st,
        }
    }
}

pub open spec fn md_start(base: Style) -> MdState {
    MdState { blocks: Seq::empty(), containers: Seq::empty(), styles: seq![base], fence: None }
}

/// The parse after a run of events.
pub open spec fn md_steps(st: MdState, toks: Seq<MdToken>) -> MdState
    decreases toks.len(),
{
    if toks.len() == 0 {
        st
    } else {
        md_step(md_steps(st, toks.drop_last()), toks.last())
    }
}

/// The blocks of a text whose parser reported `toks`, inline text starting in `base`.
pub open spec fn md_blocks(toks: Seq<MdToken>, base: Style) -> Seq<BlockM> {
    md_steps(md_start(base), toks).blocks
}


// ---------------------------------------------------------------------------
// Outside calls
// ---------------------------------------------------------------------------

/// The events that pulldown_cmark's parser, every extension on, reports for a text,
/// read one for one: each tag by its kind (a heading's level is its `HeadingLevel`
/// number, a fenced block keeps its info string), text and code with their text.
pub uninterp spec fn md_tokens_of(text: Seq<char>) -> Seq<MdToken>;

/// Whether a token is one that a start tag reads as.
pub open spec fn is_start_token(t: MdToken) -> bool {
    match t {
        MdToken::StartParagraph | MdToken::StartHeading(_) | MdToken::StartQuote
        | MdToken::StartCodeBlock(_) | MdToken::StartList(_) | MdToken::StartItem
        | MdToken::StartEmphasis | MdToken::StartStrong | MdToken::StartLink
        | MdToken::StartOther => true,
        _ => false,
    }
}

/// Whether a token is one that an end tag reads as.
pub open spec fn is_end_token(t: MdToken) -> bool {
    match t {
        MdToken::EndParagraph | MdToken::EndHeading | MdToken::EndQuote | MdToken::EndCodeBlock
        | MdToken::EndList | MdToken::EndItem | MdToken::EndEmphasis | MdToken::EndStrong
        | MdToken::EndLink | MdToken::EndOther => true,
        _ => false,
    }
}

/// Whether a token is one that no tag reads as.
pub open spec fn is_other_token(t: MdToken) -> bool {
    !is_start_token(t) && !is_end_token(t)
}

/// The start-tag tokens of `all`, the others `None`.
pub open spec fn start_tokens(all: Seq<MdToken>) -> Seq<Option<MdToken>> {
    all.map_values(|t: MdToken| if is_start_token(t) { Some(t) } else { None })
}

/// The end-tag tokens of `all`, the others `None`.
pub open spec fn end_tokens(all: Seq<MdToken>) -> Seq<Option<MdToken>> {
    all.map_values(|t: MdToken| if is_end_token(t) { Some(t) } else { None })
}

/// The tokens of `all` that no tag reads as, the others `None`.
pub open spec fn other_tokens(all: Seq<MdToken>) -> Seq<Option<MdToken>> {
    all.map_values(|t: MdToken| if is_other_token(t) { Some(t) } else { None })
}

/// `pulldown_cmark::Parser::new_ext` with every extension on: for each event, its
/// token when it is a start tag, else `None`. One of three readings of the same
/// events, split by kind.
#[verifier::external_body]
fn markdown_starts(text: &str) -> (r: Vec<Option<MdToken>>)
    ensures
        r@ == start_tokens(md_tokens_of(text@)),
{
    Parser::new_ext(text, Options::all()).map(|e| if let Start(tag) = e {
        Some(match tag {
            Paragraph => MdToken::StartParagraph,
            Heading { level, .. } => MdToken::StartHeading(level as u8),
            BlockQuote(_) => MdToken::StartQuote,
            CodeBlock(Indented) => MdToken::StartCodeBlock(None),
            CodeBlock(Fenced(i)) => MdToken::StartCodeBlock(Some(i.to_string())),
            List(first) => MdToken::StartList(first),
            Item => MdToken::StartItem,
            Emphasis => MdToken::StartEmphasis, Strong => MdToken::StartStrong,
            Link { .. } => MdToken::StartLink,
            _ => MdToken::StartOther,
        })
    } else { None }).collect()
}

/// `pulldown_cmark::Parser::new_ext` with every extension on: for each event, its
/// token when it is an end tag, else `None`.
#[verifier::external_body]
fn markdown_ends(text: &str) -> (r: Vec<Option<MdToken>>)
    ensures
        r@ == end_tokens(md_tokens_of(text@)),
{
    Parser::new_ext(text, Options::all()).map(|e| if let End(tag) = e {
        Some(match tag {
            E::Paragraph => MdToken::EndParagraph,
            E::Heading(_) => MdToken::EndHeading,
            E::BlockQuote(_) => MdToken::EndQuote,
            E::CodeBlock => MdToken::EndCodeBlock,
            E::List(_) => MdToken::EndList,
            E::Item => MdToken::EndItem,
            E::Emphasis => MdToken::EndEmphasis, E::Strong => MdToken::EndStrong,
            E::Link => MdToken::EndLink,
            _ => MdToken::EndOther,
        })
    } else { None }).collect()
}

/// `pulldown_cmark::Parser::new_ext` with every extension on: for each event, its
/// token when it is no tag (text and code with their text), else `None`.
#[verifier::external_body]
fn markdown_others(text: &str) -> (r: Vec<Option<MdToken>>)
    ensures
        r@ == other_tokens(md_tokens_of(text@)),
{
    Parser::new_ext(text, Options::all()).map(|e| match e {
        Start(_) | End(_) => None,
        Text(t) => Some(MdToken::Text(t.to_string())),
        Code(t) => Some(MdToken::Code(t.to_string())),
        SoftBreak => Some(MdToken::SoftBreak),
        HardBreak => Some(MdToken::HardBreak),
        Rule => Some(MdToken::Rule),
        TaskListMarker(b) => Some(MdToken::TaskListMarker(b)),
        _ => Some(MdToken::Other),
    }).collect()
}

fn is_ws(c: char) -> (r: bool)
    ensures
        r == is_white_space(c),
{
    ('\u{9}' <= c && c <= '\u{d}') || c == ' ' || c == '\u{85}' || c == '\u{a0}' || c == '\u{1680}'
        || ('\u{2000}' <= c && c <= '\u{200a}') || c == '\u{2028}' || c == '\u{2029}' || c == '\u{202f}'
        || c == '\u{205f}' || c == '\u{3000}'
}

/// A text without the white space at both ends (what `str::trim` leaves).
fn trim_text(s: &str) -> (r: String)
    ensures
        r@ == trimmed(s@),
{
    let cs = crate::text::chars_of(s);
    let n = cs.len();
    let mut i: usize = 0;
    assert(cs@.skip(0) =~= cs@);
    while i < n && is_ws(cs[i])
        invariant
            i <= n,
            n == cs@.len(),
            without_leading_ws(cs@) == without_leading_ws(cs@.skip(i as int)),
        decreases n - i,
    {
        assert(cs@.skip(i as int).drop_first() =~= cs@.skip(i + 1));
        i = i + 1;
    }
    let ghost front = cs@.skip(i as int);
    assert(without_leading_ws(cs@) == front);
    let mut j: usize = n;
    assert(front.take(front.len() as int) =~= front);
    while j > i && is_ws(cs[j - 1])
        invariant
            i <= j <= n,
            n == cs@.len(),
            front == cs@.skip(i as int),
            without_trailing_ws(front) == without_trailing_ws(front.take(j - i)),
        decreases j,
    {
        assert(front.take(j - i).drop_last() =~= front.take(j - i - 1));
        j = j - 1;
    }
    assert(without_trailing_ws(front) == front.take(j - i));
    let mut out = String::new();
    let mut k: usize = i;
    while k < j
        invariant
            i <= k <= j <= n,
            n == cs@.len(),
            front == cs@.skip(i as int),
            out@ == front.take(k - i),
        decreases j - k,
    {
        push_char(&mut out, cs[k]);
        assert(front.take(k - i + 1) =~= front.take(k - i).push(cs@[k as int]));
        k = k + 1;
    }
    out
}

// ---------------------------------------------------------------------------
// The parse
// ---------------------------------------------------------------------------

pub(crate) fn string_of_char(c: char) -> (r: String)
    ensures
        r@ == seq![c],
{
    let mut s = String::new();
    crate::text::push_char(&mut s, c);
    s
}

fn styled_chunk(text: String, style: Style) -> (r: StyledChunk)
    ensures
        r.model() == (text@, style),
{
    StyledChunk { text, style }
}

fn current_style(styles: &Vec<Style>) -> (r: Style)
    ensures
        r == top_style(styles@),
{
    let n = styles.len();
    if n > 0 {
        styles[n - 1]
    } else {
        Style::new()
    }
}

fn append_chunks(target: &mut Vec<StyledChunk>, source: Vec<StyledChunk>)
    ensures
        chunks_model(final(target)@) == chunks_model(old(target)@) + chunks_model(source@),
{
    let ghost src = source@;
    let mut source = source;
    target.append(&mut source);
    assert(chunks_model(target@) =~= chunks_model(old(target)@) + chunks_model(src));
}

fn push_inline(containers: &mut Vec<Container>, chunk: StyledChunk)
    ensures
        containers_model(final(containers)@) == after_inline(
            containers_model(old(containers)@),
            chunk.model(),
        ),
{
    let ghost c = chunk.model();
    let ghost om = containers_model(containers@);
    let n = containers.len();
    if n == 0 {
        return;
    }
    let top = containers.pop().unwrap();
    proof {
        assert(om.last() == top.model());
        assert(om.drop_last() =~= containers_model(containers@));
    }
    let updated = match top {
        Container::Paragraph(mut content) => {
            let ghost before = chunks_model(content@);
            content.push(chunk);
            assert(chunks_model(content@) =~= before.push(c));
            Container::Paragraph(content)
        },
        Container::Heading { level, mut content } => {
            let ghost before = chunks_model(content@);
            content.push(chunk);
            assert(chunks_model(content@) =~= before.push(c));
            Container::Heading { level, content }
        },
        Container::Quote(mut content) => {
            let ghost before = chunks_model(content@);
            content.push(chunk);
            assert(chunks_model(content@) =~= before.push(c));
            Container::Quote(content)
        },
        Container::List(mut l) => {
            let ghost before = chunks_model(l.current_item@);
            l.current_item.push(chunk);
            assert(chunks_model(l.current_item@) =~= before.push(c));
            Container::List(l)
        },
    };
    let ghost um = updated.model();
    containers.push(updated);
    assert(containers_model(containers@) =~= om.drop_last().push(um));
}

fn push_block(blocks: &mut Vec<MdBlock>, containers: &mut Vec<Container>, block: MdBlock)
    ensures
        (blocks_model(final(blocks)@), containers_model(final(containers)@)) == after_block(
            blocks_model(old(blocks)@),
            containers_model(old(containers)@),
            block.model(),
        ),
{
    let ghost bm = block.model();
    let n = containers.len();
    let top_takes = n > 0 && match &containers[n - 1] {
        Container::Quote(_) => true,
        Container::List(_) => true,
        _ => false,
    };
    let has_text = match &block {
        MdBlock::Paragraph(_) => true,
        MdBlock::Quote(_) => true,
        MdBlock::Heading { .. } => true,
        _ => false,
    };
    if !(top_takes && has_text) {
        blocks.push(block);
        proof {
            assert(blocks_model(blocks@) =~= blocks_model(old(blocks)@).push(bm));
            if n > 0 && has_text {
                assert(containers_model(containers@).last() == containers@[n - 1].model());
            }
        }
        return;
    }
    let text = match block {
        MdBlock::Paragraph(c) => c,
        MdBlock::Quote(c) => c,
        MdBlock::Heading { content, .. } => content,
        _ => Vec::new(),
    };
    let ghost tm = chunks_model(text@);
    assert(inline_text(bm) == Some(tm));
    let top = containers.pop().unwrap();
    let ghost before = top.model();
    let updated = match top {
        Container::Quote(mut content) => {
            let ghost c0 = chunks_model(content@);
            append_chunks(&mut content, text);
            let ghost c1 = content@;
            content.push(styled_chunk(string_of_char('\n'), Style::new()));
            assert(chunks_model(content@) =~= chunks_model(c1).push((newline_text(), plain())));
            Container::Quote(content)
        },
        Container::List(mut l) => {
            append_chunks(&mut l.current_item, text);
            Container::List(l)
        },
        other => other,
    };
    containers.push(updated);
    proof {
        let om = containers_model(old(containers)@);
        assert(om.last() == before);
        assert(om.drop_last() =~= containers_model(containers@.drop_last()));
        assert(containers_model(containers@) =~= om.drop_last().push(updated.model()));
    }
}

/// The parse in progress.
pub struct MdParse {
    pub blocks: Vec<MdBlock>,
    pub containers: Vec<Container>,
    pub styles: Vec<Style>,
    pub fence: Option<(Option<String>, String)>,
}

pub open spec fn fence_model(f: Option<(Option<String>, String)>) -> Option<(Option<Seq<char>>, Seq<char>)> {
    match f {
        Some((l, t)) => Some((opt_str(l), t@)),
        None => None,
    }
}

impl MdParse {
    pub open spec fn model(&self) -> MdState {
        MdState {
            blocks: blocks_model(self.blocks@),
            containers: containers_model(self.containers@),
            styles: self.styles@,
            fence: fence_model(self.fence),
        }
    }

    fn push_style(&mut self, s: Style)
        ensures
            final(self).model() == (MdState { styles: old(self).model().styles.push(s), ..old(self).model() }),
    {
        self.styles.push(s);
    }

    fn pop_style(&mut self)
        ensures
            final(self).model() == (if old(self).styles@.len() > 1 {
                MdState { styles: old(self).model().styles.drop_last(), ..old(self).model() }
            } else {
                old(self).model()
            }),
    {
        if self.styles.len() > 1 {
            self.styles.pop();
        }
    }

    fn inline(&mut self, text: String, style: Style)
        ensures
            final(self).model() == with_inline(old(self).model(), text@, style),
    {
        push_inline(&mut self.containers, styled_chunk(text, style));
    }

    fn open(&mut self, c: Container)
        ensures
            final(self).model() == (MdState {
                containers: old(self).model().containers.push(c.model()),
                ..old(self).model()
            }),
    {
        let ghost cm = c.model();
        self.containers.push(c);
        assert(containers_model(self.containers@) =~= containers_model(old(self).containers@).push(cm));
    }

    fn close(&mut self, t: &MdToken)
        requires
            old(self).fence is None,
            t is EndParagraph || t is EndHeading || t is EndQuote || t is EndList,
        ensures
            final(self).model() == close(old(self).model(), *t),
    {
        let ghost st = self.model();
        match self.containers.pop() {
            None => {},
            Some(top) => {
                proof {
                    assert(containers_model(self.containers@) =~= st.containers.drop_last());
                    assert(st.containers.last() == top.model());
                }
                match (t, top) {
                    (MdToken::EndParagraph, Container::Paragraph(c)) => {
                        push_block(&mut self.blocks, &mut self.containers, MdBlock::Paragraph(c));
                    },
                    (MdToken::EndHeading, Container::Heading { level, content }) => {
                        push_block(
                            &mut self.blocks,
                            &mut self.containers,
                            MdBlock::Heading { level, content },
                        );
                    },
                    (MdToken::EndQuote, Container::Quote(c)) => {
                        push_block(&mut self.blocks, &mut self.containers, MdBlock::Quote(c));
                    },
                    (MdToken::EndList, Container::List(l)) => {
                        let b = if l.ordered {
                            MdBlock::OrderedList { start: l.start, items: l.items }
                        } else {
                            MdBlock::BulletList(l.items)
                        };
                        push_block(&mut self.blocks, &mut self.containers, b);
                    },
                    _ => {},
                }
            },
        }
    }

    fn end_item(&mut self)
        requires
            old(self).fence is None,
        ensures
            final(self).model() == md_step(old(self).model(), MdToken::EndItem),
    {
        let ghost st = self.model();
        let n = self.containers.len();
        if n == 0 {
            return;
        }
        let is_open_item = match &self.containers[n - 1] {
            Container::List(l) => l.current_item.len() > 0,
            _ => false,
        };
        proof {
            assert(st.containers.last() == self.containers@[n - 1].model());
        }
        if !is_open_item {
            return;
        }
        let top = self.containers.pop().unwrap();
        proof {
            assert(containers_model(self.containers@) =~= st.containers.drop_last());
        }
        match top {
            Container::List(mut l) => {
                let mut item: Vec<StyledChunk> = Vec::new();
                std::mem::swap(&mut item, &mut l.current_item);
                let ghost im = chunks_model(item@);
                let ghost before = items_model(l.items@);
                l.items.push(item);
                assert(items_model(l.items@) =~= before.push(im));
                assert(chunks_model(l.current_item@) =~= Seq::<(Seq<char>, Style)>::empty());
                let c = Container::List(l);
                let ghost cm = c.model();
                self.containers.push(c);
                assert(containers_model(self.containers@) =~= st.containers.drop_last().push(cm));
            },
            other => {
                self.containers.push(other);
            },
        }
    }

    /// One event of the parse.
    pub fn step(&mut self, t: &MdToken)
        ensures
            final(self).model() == md_step(old(self).model(), *t),
    {
        let ghost st = self.model();
        assert(chunks_model(Seq::<StyledChunk>::empty()) =~= Seq::empty());
        if self.fence.is_some() {
            let (lang, mut code) = self.fence.take().unwrap();
            assert(st.fence == Some((opt_str(lang), code@)));
            match t {
                MdToken::EndCodeBlock => {
                    push_block(
                        &mut self.blocks,
                        &mut self.containers,
                        MdBlock::CodeFence { language: lang, text: code },
                    );
                },
                MdToken::Text(s) => {
                    crate::json::append_str(&mut code, s.as_str());
                    self.fence = Some((lang, code));
                },
                MdToken::Code(s) => {
                    crate::json::append_str(&mut code, s.as_str());
                    self.fence = Some((lang, code));
                },
                MdToken::SoftBreak => {
                    let ghost c0 = code@;
                    crate::text::push_char(&mut code, '\n');
                    assert(code@ =~= c0 + newline_text());
                    self.fence = Some((lang, code));
                },
                MdToken::HardBreak => {
                    let ghost c0 = code@;
                    crate::text::push_char(&mut code, '\n');
                    assert(code@ =~= c0 + newline_text());
                    self.fence = Some((lang, code));
                },
                _ => {
                    self.fence = Some((lang, code));
                },
            }
            return;
        }
        let cur = current_style(&self.styles);
        match t {
            MdToken::StartParagraph => self.open(Container::Paragraph(Vec::new())),
            MdToken::StartHeading(level) => self.open(
                Container::Heading { level: *level, content: Vec::new() },
            ),
            MdToken::StartQuote => self.open(Container::Quote(Vec::new())),
            MdToken::StartCodeBlock(info) => {
                let language = match info {
                    Some(raw) => {
                        let l = trim_text(raw.as_str());
                        if l.as_str().is_empty() {
                            None
                        } else {
                            Some(l)
                        }
                    },
                    None => None,
                };
                self.fence = Some((language, String::new()));
            },
            MdToken::StartList(first) => {
                let start = match first {
                    Some(n) => *n,
                    None => 1,
                };
                self.open(
                    Container::List(
                        ListState {
                            ordered: first.is_some(),
                            start,
                            items: Vec::new(),
                            current_item: Vec::new(),
                        },
                    ),
                );
                assert(items_model(Seq::<Vec<StyledChunk>>::empty()) =~= Seq::empty());
            },
            MdToken::StartEmphasis => self.push_style(cur.add_modifier(Modifiers::italic())),
            MdToken::StartStrong => self.push_style(cur.add_modifier(Modifiers::bold())),
            MdToken::StartLink => self.push_style(
                cur.fg(Color::Blue).add_modifier(Modifiers::underlined()),
            ),
            MdToken::EndParagraph => self.close(t),
            MdToken::EndHeading => self.close(t),
            MdToken::EndQuote => self.close(t),
            MdToken::EndList => self.close(t),
            MdToken::EndItem => self.end_item(),
            MdToken::EndEmphasis => self.pop_style(),
            MdToken::EndStrong => self.pop_style(),
            MdToken::EndLink => self.pop_style(),
            MdToken::Text(s) => self.inline(s.clone(), cur),
            MdToken::Code(s) => self.inline(s.clone(), cur.bg(Color::DarkGray).fg(Color::Yellow)),
            MdToken::SoftBreak => self.inline(string_of_char(' '), cur),
            MdToken::HardBreak => self.inline(string_of_char('\n'), cur),
            MdToken::Rule => {
                self.blocks.push(MdBlock::ThematicBreak);
                assert(blocks_model(self.blocks@) =~= st.blocks.push(BlockM::ThematicBreak));
            },
            MdToken::TaskListMarker(checked) => {
                let mut m = String::new();
                crate::text::push_char(&mut m, '[');
                crate::text::push_char(&mut m, if *checked { 'x' } else { ' ' });
                crate::text::push_char(&mut m, ']');
                crate::text::push_char(&mut m, ' ');
                assert(m@ =~= task_marker(*checked));
                self.inline(m, cur);
            },
            _ => {},
        }
    }
}

/// The blocks of a text whose Markdown parser reported `toks`, inline text
/// starting in style `base`.
pub fn blocks_from_tokens(toks: &Vec<MdToken>, base: Style) -> (r: Vec<MdBlock>)
    ensures
        blocks_model(r@) == md_blocks(toks@, base),
{
    let mut styles: Vec<Style> = Vec::new();
    styles.push(base);
    let mut p = MdParse { blocks: Vec::new(), containers: Vec::new(), styles, fence: None };
    proof {
        assert(p.model().blocks =~= Seq::empty());
        assert(p.model().containers =~= Seq::empty());
        assert(p.model().styles =~= seq![base]);
        assert(toks@.take(0) =~= Seq::<MdToken>::empty());
    }
    let mut i: usize = 0;
    while i < toks.len()
        invariant
            i <= toks.len(),
            p.model() == md_steps(md_start(base), toks@.take(i as int)),
        decreases toks.len() - i,
    {
        p.step(&toks[i]);
        proof {
            assert(toks@.take(i + 1).drop_last() =~= toks@.take(i as int));
        }
        i += 1;
    }
    assert(toks@.take(toks.len() as int) =~= toks@);
    p.blocks
}

/// Parses a Markdown text into blocks, inline text starting in style `base`: the
/// blocks that `blocks_from_tokens` makes of the events pulldown_cmark reports for
/// the text.
pub fn parse_markdown(text: &str, base: Style) -> (r: Vec<MdBlock>)
    ensures
        blocks_model(r@) == md_blocks(md_tokens_of(text@), base),
{
    let toks = markdown_tokens(text);
    blocks_from_tokens(&toks, base)
}

/// The events pulldown_cmark reports for a Markdown text, as this library reads them.
pub fn markdown_tokens(text: &str) -> (r: Vec<MdToken>)
    ensures
        r@ == md_tokens_of(text@),
{
    let ghost all = md_tokens_of(text@);
    let mut starts = markdown_starts(text);
    let mut ends = markdown_ends(text);
    let mut others = markdown_others(text);
    let mut rev: Vec<MdToken> = Vec::new();
    assert(starts@.take(starts@.len() as int) =~= starts@);
    assert(ends@.take(ends@.len() as int) =~= ends@);
    assert(others@.take(others@.len() as int) =~= others@);
    while starts.len() > 0
        invariant
            starts@ == start_tokens(all).take(starts@.len() as int),
            ends@ == end_tokens(all).take(starts@.len() as int),
            others@ == other_tokens(all).take(starts@.len() as int),
            ends@.len() == starts@.len(),
            others@.len() == starts@.len(),
            rev@.len() + starts@.len() == all.len(),
            forall|j: int| 0 <= j < rev@.len() ==> rev@[j] == all[all.len() - 1 - j],
        decreases starts.len(),
    {
        let ghost n = starts@.len() as int;
        let s0 = starts.pop().unwrap();
        let e0 = ends.pop().unwrap();
        let o0 = others.pop().unwrap();
        let t = match s0 {
            Some(t) => t,
            None => match e0 {
                Some(t) => t,
                None => match o0 {
                    Some(t) => t,
                    None => MdToken::Other,
                },
            },
        };
        proof {
            assert(s0 == start_tokens(all)[n - 1]);
            assert(e0 == end_tokens(all)[n - 1]);
            assert(o0 == other_tokens(all)[n - 1]);
            assert(t == all[n - 1]);
            assert(starts@ =~= start_tokens(all).take(n - 1));
            assert(ends@ =~= end_tokens(all).take(n - 1));
            assert(others@ =~= other_tokens(all).take(n - 1));
        }
        rev.push(t);
    }
    let mut out: Vec<MdToken> = Vec::new();
    while rev.len() > 0
        invariant
            out@.len() + rev@.len() == all.len(),
            forall|j: int| 0 <= j < rev@.len() ==> rev@[j] == all[all.len() - 1 - j],
            out@ == all.take(out@.len() as int),
        decreases rev.len(),
    {
        let t = rev.pop().unwrap();
        let ghost k = out@.len() as int;
        proof {
            assert(t == all[k]);
        }
        out.push(t);
        proof {
            assert(out@ =~= all.take(k + 1));
        }
    }
    assert(all.take(all.len() as int) =~= all);
    out
}


// ---------------------------------------------------------------------------
// Screen lines of the blocks
// ---------------------------------------------------------------------------

pub open spec fn dim_style() -> Style {
    Style { add: Modifiers { dim: true, ..no_modifiers() }, ..plain() }
}

pub open spec fn bold_mods() -> Modifiers {
    Modifiers { bold: true, ..no_modifiers() }
}

pub open spec fn repeat_char(c: char, n: nat) -> Seq<char> {
    Seq::new(n, |i: int| c)
}

pub open spec fn sat_sub(a: nat, b: nat) -> nat {
    if a >= b {
        (a - b) as nat
    } else {
        0
    }
}

/// `│ ` before quoted and code lines.
pub open spec fn bar() -> Seq<char> {
    seq!['│', ' ']
}

pub open spec fn heading_style(level: u8, base: Style) -> Style {
    if level == 1 {
        with_mods(with_fg(base, Color::Cyan), bold_mods())
    } else if level == 2 || level == 3 {
        with_mods(with_fg(base, Color::Blue), bold_mods())
    } else {
        with_mods(base, bold_mods())
    }
}

/// Chunks with `s` laid under their own styles.
pub open spec fn restyled(content: Seq<(Seq<char>, Style)>, s: Style) -> Seq<(Seq<char>, Style)> {
    content.map_values(|c: (Seq<char>, Style)| (c.0, layered(s, c.1)))
}

/// Each line with `first` put before it.
pub open spec fn prefixed(
    lines: Seq<Seq<(Seq<char>, Style)>>,
    first: (Seq<char>, Style),
) -> Seq<Seq<(Seq<char>, Style)>> {
    lines.map_values(|l: Seq<(Seq<char>, Style)>| seq![first] + l)
}

/// The marker of item `idx` of a list: its number, when the list is ordered.
pub open spec fn list_marker(start: Option<u64>, idx: int) -> Seq<char> {
    match start {
        Some(s) => decimal(((s + idx) % 0x1_0000_0000_0000_0000) as nat) + seq!['.', ' '],
        None => seq!['•', ' '],
    }
}

pub open spec fn marker_style() -> Style {
    Style { fg: Some(Color::Yellow), add: bold_mods(), ..plain() }
}

/// An item of a list: its text wrapped beside the marker, later lines indented.
pub open spec fn item_lines(
    item: Seq<(Seq<char>, Style)>,
    start: Option<u64>,
    idx: int,
    cols: nat,
    active: bool,
    query: Seq<char>,
) -> Seq<Seq<(Seq<char>, Style)>> {
    let m = list_marker(start, idx);
    let wrapped = wrap_lines(item, sat_sub(cols, m.len()), active, query);
    Seq::new(
        wrapped.len(),
        |j: int|
            seq![
                if j == 0 {
                    (m, marker_style())
                } else {
                    (repeat_char(' ', m.len()), plain())
                },
            ] + wrapped[j],
    )
}

pub open spec fn list_lines(
    items: Seq<Seq<(Seq<char>, Style)>>,
    start: Option<u64>,
    cols: nat,
    active: bool,
    query: Seq<char>,
) -> Seq<Seq<(Seq<char>, Style)>>
    decreases items.len(),
{
    if items.len() == 0 {
        Seq::empty()
    } else {
        list_lines(items.drop_last(), start, cols, active, query) + item_lines(
            items.last(),
            start,
            items.len() - 1,
            cols,
            active,
            query,
        )
    }
}

pub open spec fn code_line(chunk: Seq<char>) -> Seq<(Seq<char>, Style)> {
    seq![(bar(), dim_style()), (chunk, Style { fg: Some(Color::Green), ..plain() })]
}

/// Source lines of a code block, each wrapped at `w` and set after a bar.
pub open spec fn code_body(source: Seq<Seq<char>>, w: nat) -> Seq<Seq<(Seq<char>, Style)>>
    decreases source.len(),
{
    if source.len() == 0 {
        Seq::empty()
    } else {
        code_body(source.drop_last(), w) + soft_wrapped(source.last(), w).map_values(
            |c: Seq<char>| code_line(c),
        )
    }
}

pub open spec fn fence_top(title: Seq<char>) -> Seq<char> {
    seq!['┌', '─', ' '] + title + seq![' ', '─']
}

pub open spec fn fence_bottom() -> Seq<char> {
    seq!['└'] + repeat_char('─', 10)
}

/// A code block: a top rule naming its language, its lines, a bottom rule.
pub open spec fn fence_lines(language: Option<Seq<char>>, text: Seq<char>, cols: nat) -> Seq<
    Seq<(Seq<char>, Style)>,
> {
    let title = match language {
        Some(l) => l,
        None => seq!['t', 'e', 'x', 't'],
    };
    seq![seq![(fence_top(title), dim_style())]] + code_body(lines_of(text), sat_sub(cols, 2))
        + (if text.len() == 0 {
        seq![seq![(seq!['│'], dim_style())]]
    } else {
        Seq::empty()
    }) + seq![seq![(fence_bottom(), dim_style())]]
}

/// The screen lines of a block.
pub open spec fn block_lines(b: BlockM, cols: nat, base: Style, active: bool, query: Seq<char>) -> Seq<
    Seq<(Seq<char>, Style)>,
> {
    match b {
        BlockM::Paragraph(c) => wrap_lines(c, cols, active, query),
        BlockM::Heading { level, content } => wrap_lines(
            restyled(content, heading_style(level, base)),
            cols,
            active,
            query,
        ),
        BlockM::CodeFence { language, text } => fence_lines(language, text, cols),
        BlockM::BulletList(items) => list_lines(items, None, cols, active, query),
        BlockM::OrderedList { start, items } => list_lines(items, Some(start), cols, active, query),
        BlockM::Quote(c) => prefixed(
            wrap_lines(c, sat_sub(cols, 2), active, query),
            (bar(), dim_style()),
        ),
        BlockM::ThematicBreak => seq![
            seq![(repeat_char('─', if cols < 3 { 3 } else { cols }), dim_style())],
        ],
    }
}

fn spaces(n: usize) -> (r: String)
    ensures
        r@ == repeat_char(' ', n as nat),
{
    repeat(' ', n)
}

pub(crate) fn repeat(c: char, n: usize) -> (r: String)
    ensures
        r@ == repeat_char(c, n as nat),
{
    let mut s = String::new();
    let mut i: usize = 0;
    while i < n
        invariant
            i <= n,
            s@ == repeat_char(c, i as nat),
        decreases n - i,
    {
        push_char(&mut s, c);
        assert(s@ =~= repeat_char(c, (i + 1) as nat));
        i = i + 1;
    }
    s
}

fn bar_text() -> (r: String)
    ensures
        r@ == bar(),
{
    let mut s = String::new();
    push_char(&mut s, '│');
    push_char(&mut s, ' ');
    assert(s@ =~= bar());
    s
}

pub(crate) fn dim() -> (r: Style)
    ensures
        r == dim_style(),
{
    Style::new().add_modifier(Modifiers::dim())
}

fn restyle(content: &Vec<StyledChunk>, s: Style) -> (r: Vec<StyledChunk>)
    ensures
        chunks_model(r@) == restyled(chunks_model(content@), s),
{
    let mut out: Vec<StyledChunk> = Vec::new();
    let mut i: usize = 0;
    while i < content.len()
        invariant
            i <= content@.len(),
            chunks_model(out@) == restyled(chunks_model(content@), s).take(i as int),
        decreases content.len() - i,
    {
        let ghost before = out@;
        let c = StyledChunk { text: content[i].text.clone(), style: s.patch(content[i].style) };
        let ghost cm = c.model();
        out.push(c);
        assert(chunks_model(out@) =~= chunks_model(before).push(cm));
        assert(restyled(chunks_model(content@), s).take(i + 1) =~= restyled(
            chunks_model(content@),
            s,
        ).take(i as int).push(cm));
        i = i + 1;
    }
    assert(restyled(chunks_model(content@), s).take(content.len() as int) =~= restyled(
        chunks_model(content@),
        s,
    ));
    out
}

/// A line with `prefix` put before its spans.
pub(crate) fn line_with_prefix(prefix: Span, line: &StyledLine) -> (r: StyledLine)
    ensures
        r.model() == seq![prefix.model()] + line.model(),
{
    let mut spans: Vec<Span> = Vec::new();
    let ghost pm = prefix.model();
    spans.push(prefix);
    assert(spans_model(spans@) =~= seq![pm]);
    let mut i: usize = 0;
    while i < line.spans.len()
        invariant
            i <= line.spans@.len(),
            spans_model(spans@) == seq![pm] + line.model().take(i as int),
        decreases line.spans.len() - i,
    {
        let ghost before = spans@;
        let sp = Span { text: line.spans[i].text.clone(), style: line.spans[i].style };
        let ghost sm = sp.model();
        spans.push(sp);
        assert(spans_model(spans@) =~= spans_model(before).push(sm));
        assert(line.model().take(i + 1) =~= line.model().take(i as int).push(sm));
        i = i + 1;
    }
    assert(line.model().take(line.spans.len() as int) =~= line.model());
    StyledLine { spans }
}

/// Each line with a copy of `first_text` in `first_style` put before it.
fn prefix_lines(lines: &Vec<StyledLine>, first_text: &String, first_style: Style) -> (r: Vec<StyledLine>)
    ensures
        lines_model(r@) == prefixed(lines_model(lines@), (first_text@, first_style)),
{
    let mut out: Vec<StyledLine> = Vec::new();
    let ghost lm = lines_model(lines@);
    let mut i: usize = 0;
    while i < lines.len()
        invariant
            i <= lines@.len(),
            lm == lines_model(lines@),
            lines_model(out@) == prefixed(lm, (first_text@, first_style)).take(i as int),
        decreases lines.len() - i,
    {
        let ghost before = out@;
        let l = line_with_prefix(Span::styled(first_text.clone(), first_style), &lines[i]);
        let ghost m = l.model();
        out.push(l);
        assert(lines_model(out@) =~= lines_model(before).push(m));
        assert(prefixed(lm, (first_text@, first_style)).take(i + 1) =~= prefixed(
            lm,
            (first_text@, first_style),
        ).take(i as int).push(m));
        i = i + 1;
    }
    assert(prefixed(lm, (first_text@, first_style)).take(lines.len() as int) =~= prefixed(
        lm,
        (first_text@, first_style),
    ));
    out
}

/// The lines of a code block.
fn render_code_fence(language: &Option<String>, text: &String, opts: &MarkdownRenderOptions) -> (r: Vec<StyledLine>)
    ensures
        lines_model(r@) == fence_lines(opt_str(*language), text@, opts.content_cols as nat),
{
    let mut lines: Vec<StyledLine> = Vec::new();
    let mut top = String::new();
    push_char(&mut top, '┌');
    push_char(&mut top, '─');
    push_char(&mut top, ' ');
    match language {
        Some(l) => crate::json::append_str(&mut top, l.as_str()),
        None => {
            push_char(&mut top, 't');
            push_char(&mut top, 'e');
            push_char(&mut top, 'x');
            push_char(&mut top, 't');
        },
    }
    push_char(&mut top, ' ');
    push_char(&mut top, '─');
    let ghost title = match opt_str(*language) {
        Some(l) => l,
        None => seq!['t', 'e', 'x', 't'],
    };
    assert(top@ =~= fence_top(title));
    let mut head: Vec<Span> = Vec::new();
    head.push(Span::styled(top, dim()));
    let hl = StyledLine::from_spans(head);
    let ghost hm = hl.model();
    assert(hm =~= seq![(fence_top(title), dim_style())]);
    lines.push(hl);
    assert(lines_model(lines@) =~= seq![hm]);
    let w: usize = if opts.content_cols >= 2 { opts.content_cols - 2 } else { 0 };
    let source = split_lines(text.as_str());
    let ghost src = source@.map_values(|l: String| l@);
    assert(src == lines_of(text@));
    let mut i: usize = 0;
    assert(src.take(0) =~= Seq::<Seq<char>>::empty());
    while i < source.len()
        invariant
            i <= source@.len(),
            src == source@.map_values(|l: String| l@),
            w == sat_sub(opts.content_cols as nat, 2),
            lines_model(lines@) == seq![hm] + code_body(src.take(i as int), w as nat),
        decreases source.len() - i,
    {
        let pieces = soft_wrap_plain(source[i].as_str(), w);
        let ghost pm = pieces@.map_values(|c: String| c@);
        let ghost base = lines_model(lines@);
        let mut j: usize = 0;
        while j < pieces.len()
            invariant
                j <= pieces@.len(),
                pm == pieces@.map_values(|c: String| c@),
                lines_model(lines@) == base + pm.take(j as int).map_values(|c: Seq<char>| code_line(c)),
            decreases pieces.len() - j,
        {
            let mut spans: Vec<Span> = Vec::new();
            spans.push(Span::styled(bar_text(), dim()));
            spans.push(Span::styled(pieces[j].clone(), Style::new().fg(Color::Green)));
            let l = StyledLine::from_spans(spans);
            let ghost m = l.model();
            assert(m =~= code_line(pm[j as int]));
            let ghost before = lines@;
            lines.push(l);
            assert(lines_model(lines@) =~= lines_model(before).push(m));
            assert(pm.take(j + 1).map_values(|c: Seq<char>| code_line(c)) =~= pm.take(j as int).map_values(
                |c: Seq<char>| code_line(c),
            ).push(m));
            j = j + 1;
        }
        proof {
            assert(pm.take(pieces.len() as int) =~= pm);
            assert(src.take(i + 1).drop_last() =~= src.take(i as int));
            assert(src.take(i + 1).last() == source@[i as int]@);
            assert(pm == soft_wrapped(source@[i as int]@, w as nat));
            assert(seq![hm] + code_body(src.take(i + 1), w as nat) =~= seq![hm] + code_body(
                src.take(i as int),
                w as nat,
            ) + pm.map_values(|c: Seq<char>| code_line(c)));
        }
        i = i + 1;
    }
    assert(src.take(source.len() as int) =~= src);
    let ghost body = lines_model(lines@);
    if text.as_str().is_empty() {
        let mut spans: Vec<Span> = Vec::new();
        spans.push(Span::styled(string_of_char('│'), dim()));
        let l = StyledLine::from_spans(spans);
        let ghost m = l.model();
        assert(m =~= seq![(seq!['│'], dim_style())]);
        lines.push(l);
        assert(lines_model(lines@) =~= body.push(m));
    }
    let ghost mid = lines_model(lines@);
    let mut bottom = String::new();
    push_char(&mut bottom, '└');
    let rule = repeat('─', 10);
    crate::json::append_str(&mut bottom, rule.as_str());
    let mut spans: Vec<Span> = Vec::new();
    spans.push(Span::styled(bottom, dim()));
    let l = StyledLine::from_spans(spans);
    let ghost m = l.model();
    assert(m =~= seq![(fence_bottom(), dim_style())]);
    lines.push(l);
    assert(lines_model(lines@) =~= mid.push(m));
    assert(lines_model(lines@) =~= fence_lines(opt_str(*language), text@, opts.content_cols as nat));
    lines
}

/// The marker of item `idx` of a list.
fn list_marker_text(ordered_start: Option<u64>, idx: usize) -> (r: String)
    ensures
        r@ == list_marker(ordered_start, idx as int),
{
    let mut m = String::new();
    match ordered_start {
        Some(start) => {
            let n = start.wrapping_add(idx as u64);
            assert(n == ((start + idx) % 0x1_0000_0000_0000_0000)) by (nonlinear_arith)
                requires
                    n == (if start + (idx as u64) > u64::MAX {
                        start + (idx as u64) - 0x1_0000_0000_0000_0000
                    } else {
                        start + (idx as u64)
                    }),
                    idx as u64 == idx,
            ;
            push_decimal(&mut m, n);
            push_char(&mut m, '.');
            push_char(&mut m, ' ');
        },
        None => {
            push_char(&mut m, '•');
            push_char(&mut m, ' ');
        },
    }
    assert(m@ =~= list_marker(ordered_start, idx as int));
    m
}

/// The lines of a list: each item wrapped beside its marker.
fn render_list(items: &Vec<Vec<StyledChunk>>, ordered_start: Option<u64>, opts: &MarkdownRenderOptions) -> (r: Vec<StyledLine>)
    ensures
        lines_model(r@) == list_lines(
            items_model(items@),
            ordered_start,
            opts.content_cols as nat,
            opts.search_active,
            opts.search_query@,
        ),
{
    let ghost im = items_model(items@);
    let ghost cols = opts.content_cols as nat;
    let ghost active = opts.search_active;
    let ghost query = opts.search_query@;
    let mut lines: Vec<StyledLine> = Vec::new();
    let mut idx: usize = 0;
    assert(im.take(0) =~= Seq::<Seq<(Seq<char>, Style)>>::empty());
    assert(lines_model(lines@) =~= Seq::<Seq<(Seq<char>, Style)>>::empty());
    while idx < items.len()
        invariant
            idx <= items@.len(),
            im == items_model(items@),
            cols == opts.content_cols as nat,
            active == opts.search_active,
            query == opts.search_query@,
            lines_model(lines@) == list_lines(im.take(idx as int), ordered_start, cols, active, query),
        decreases items.len() - idx,
    {
        let marker = list_marker_text(ordered_start, idx);
        let mw = crate::ui::wrap::char_width(marker.as_str());
        let w: usize = if opts.content_cols >= mw { opts.content_cols - mw } else { 0 };
        let wrapped = wrap_chunks(&items[idx], w, "", opts);
        let ghost wm = lines_model(wrapped@);
        let ghost want = item_lines(im[idx as int], ordered_start, idx as int, cols, active, query);
        let ghost base = lines_model(lines@);
        assert(im[idx as int] == chunks_model(items@[idx as int]@));
        assert(wm.len() == want.len());
        let mut j: usize = 0;
        assert(want.take(0) =~= Seq::<Seq<(Seq<char>, Style)>>::empty());
        assert(base + want.take(0) =~= base);
        while j < wrapped.len()
            invariant
                j <= wrapped@.len(),
                wm == lines_model(wrapped@),
                wm.len() == want.len(),
                mw == marker@.len(),
                want == item_lines(im[idx as int], ordered_start, idx as int, cols, active, query),
                marker@ == list_marker(ordered_start, idx as int),
                forall|k: int| 0 <= k < wm.len() ==> #[trigger] want[k] == seq![
                    if k == 0 {
                        (marker@, marker_style())
                    } else {
                        (repeat_char(' ', mw as nat), plain())
                    },
                ] + wm[k],
                lines_model(lines@) == base + want.take(j as int),
            decreases wrapped.len() - j,
        {
            let prefix = if j == 0 {
                Span::styled(marker.clone(), Style::new().fg(Color::Yellow).add_modifier(Modifiers::bold()))
            } else {
                Span::raw(spaces(mw))
            };
            let l = line_with_prefix(prefix, &wrapped[j]);
            let ghost m = l.model();
            assert(m == want[j as int]);
            let ghost before = lines@;
            lines.push(l);
            assert(lines_model(lines@) =~= lines_model(before).push(m));
            assert(want.take(j + 1) =~= want.take(j as int).push(m));
            j = j + 1;
        }
        proof {
            assert(want.take(wrapped.len() as int) =~= want);
            assert(im.take(idx + 1).drop_last() =~= im.take(idx as int));
            assert(im.take(idx + 1).last() == im[idx as int]);
        }
        idx = idx + 1;
    }
    assert(im.take(items.len() as int) =~= im);
    lines
}

/// The screen lines of a block.
fn render_block(block: &MdBlock, opts: &MarkdownRenderOptions) -> (r: Vec<StyledLine>)
    ensures
        lines_model(r@) == block_lines(
            block.model(),
            opts.content_cols as nat,
            opts.base_style,
            opts.search_active,
            opts.search_query@,
        ),
{
    match block {
        MdBlock::Paragraph(content) => wrap_chunks(content, opts.content_cols, "", opts),
        MdBlock::Heading { level, content } => {
            let style = if *level == 1 {
                opts.base_style.fg(Color::Cyan).add_modifier(Modifiers::bold())
            } else if *level == 2 || *level == 3 {
                opts.base_style.fg(Color::Blue).add_modifier(Modifiers::bold())
            } else {
                opts.base_style.add_modifier(Modifiers::bold())
            };
            let styled = restyle(content, style);
            wrap_chunks(&styled, opts.content_cols, "", opts)
        },
        MdBlock::CodeFence { language, text } => render_code_fence(language, text, opts),
        MdBlock::BulletList(items) => render_list(items, None, opts),
        MdBlock::OrderedList { start, items } => render_list(items, Some(*start), opts),
        MdBlock::Quote(content) => {
            let quote_opts = MarkdownRenderOptions {
                label: opts.label.clone(),
                label_style: opts.label_style,
                content_cols: if opts.content_cols >= 2 { opts.content_cols - 2 } else { 0 },
                base_style: opts.base_style.add_modifier(Modifiers::dim()),
                search_query: opts.search_query.clone(),
                search_active: opts.search_active,
            };
            let inner = wrap_chunks(content, quote_opts.content_cols, "", &quote_opts);
            prefix_lines(&inner, &bar_text(), dim())
        },
        MdBlock::ThematicBreak => {
            let n = if opts.content_cols < 3 { 3 } else { opts.content_cols };
            let mut spans: Vec<Span> = Vec::new();
            spans.push(Span::styled(repeat('─', n), dim()));
            let l = StyledLine::from_spans(spans);
            let ghost m = l.model();
            let mut out: Vec<StyledLine> = Vec::new();
            out.push(l);
            assert(lines_model(out@) =~= seq![m]);
            assert(m =~= seq![(repeat_char('─', n as nat), dim_style())]);
            out
        },
    }
}

/// A label before the first line of all, padding before the others.
pub open spec fn labelled(
    bl: Seq<Seq<(Seq<char>, Style)>>,
    first: bool,
    label: (Seq<char>, Style),
) -> Seq<Seq<(Seq<char>, Style)>> {
    Seq::new(
        bl.len(),
        |j: int|
            seq![
                if first && j == 0 {
                    label
                } else {
                    (repeat_char(' ', 9), plain())
                },
            ] + bl[j],
    )
}

/// The lines of the blocks so far, each block followed by an empty line, and
/// whether no line has been made yet.
pub open spec fn blocks_acc(
    blocks: Seq<BlockM>,
    label: (Seq<char>, Style),
    cols: nat,
    base: Style,
    active: bool,
    query: Seq<char>,
) -> (Seq<Seq<(Seq<char>, Style)>>, bool)
    decreases blocks.len(),
{
    if blocks.len() == 0 {
        (Seq::empty(), true)
    } else {
        let prev = blocks_acc(blocks.drop_last(), label, cols, base, active, query);
        let bl = block_lines(blocks.last(), cols, base, active, query);
        (prev.0 + labelled(bl, prev.1, label) + seq![Seq::empty()], prev.1 && bl.len() == 0)
    }
}

/// A Markdown text on screen: its blocks' lines, the first labelled and the others
/// indented, an empty line after each block; a text with no block shows the label.
pub open spec fn md_lines(
    blocks: Seq<BlockM>,
    label: (Seq<char>, Style),
    cols: nat,
    base: Style,
    active: bool,
    query: Seq<char>,
) -> Seq<Seq<(Seq<char>, Style)>> {
    let acc = blocks_acc(blocks, label, cols, base, active, query);
    if acc.0.len() == 0 {
        seq![seq![label], Seq::empty()]
    } else {
        acc.0
    }
}

/// The screen lines of parsed Markdown blocks.
pub fn render_blocks(blocks: &Vec<MdBlock>, opts: &MarkdownRenderOptions) -> (r: Vec<StyledLine>)
    ensures
        lines_model(r@) == md_lines(
            blocks_model(blocks@),
            (opts.label@, opts.label_style),
            opts.content_cols as nat,
            opts.base_style,
            opts.search_active,
            opts.search_query@,
        ),
{
    let ghost bm = blocks_model(blocks@);
    let ghost label = (opts.label@, opts.label_style);
    let ghost cols = opts.content_cols as nat;
    let ghost base = opts.base_style;
    let ghost active = opts.search_active;
    let ghost query = opts.search_query@;
    let mut lines: Vec<StyledLine> = Vec::new();
    let mut first = true;
    let pad = spaces(9);
    let mut i: usize = 0;
    assert(bm.take(0) =~= Seq::<BlockM>::empty());
    assert(lines_model(lines@) =~= Seq::<Seq<(Seq<char>, Style)>>::empty());
    while i < blocks.len()
        invariant
            i <= blocks@.len(),
            bm == blocks_model(blocks@),
            label == (opts.label@, opts.label_style),
            cols == opts.content_cols as nat,
            base == opts.base_style,
            active == opts.search_active,
            query == opts.search_query@,
            pad@ == repeat_char(' ', 9),
            (lines_model(lines@), first) == blocks_acc(bm.take(i as int), label, cols, base, active, query),
        decreases blocks.len() - i,
    {
        let bl = render_block(&blocks[i], opts);
        let ghost blm = lines_model(bl@);
        let ghost first0 = first;
        let ghost want = labelled(blm, first0, label);
        let ghost start = lines_model(lines@);
        assert(bm[i as int] == blocks@[i as int].model());
        let mut j: usize = 0;
        assert(start + want.take(0) =~= start);
        while j < bl.len()
            invariant
                j <= bl@.len(),
                blm == lines_model(bl@),
                want == labelled(blm, first0, label),
                label == (opts.label@, opts.label_style),
                pad@ == repeat_char(' ', 9),
                first == (first0 && j == 0),
                lines_model(lines@) == start + want.take(j as int),
            decreases bl.len() - j,
        {
            let prefix = if first {
                Span::styled(opts.label.clone(), opts.label_style)
            } else {
                Span::raw(pad.clone())
            };
            let l = line_with_prefix(prefix, &bl[j]);
            let ghost m = l.model();
            assert(m =~= want[j as int]);
            let ghost before = lines@;
            lines.push(l);
            assert(lines_model(lines@) =~= lines_model(before).push(m));
            assert(want.take(j + 1) =~= want.take(j as int).push(m));
            first = false;
            j = j + 1;
        }
        let ghost before = lines@;
        lines.push(StyledLine::empty());
        proof {
            assert(want.take(bl.len() as int) =~= want);
            assert(lines_model(lines@) =~= lines_model(before).push(Seq::empty()));
            assert(bm.take(i + 1).drop_last() =~= bm.take(i as int));
            assert(bm.take(i + 1).last() == bm[i as int]);
        }
        i = i + 1;
    }
    assert(bm.take(blocks.len() as int) =~= bm);
    if lines.len() == 0 {
        let mut spans: Vec<Span> = Vec::new();
        spans.push(Span::styled(opts.label.clone(), opts.label_style));
        let l = StyledLine::from_spans(spans);
        let ghost m = l.model();
        lines.push(l);
        lines.push(StyledLine::empty());
        assert(lines_model(lines@) =~= seq![m, Seq::empty()]);
        assert(m =~= seq![label]);
    }
    lines
}

/// A Markdown text on screen (see `render_blocks`), its blocks those that
/// `blocks_from_tokens` makes of pulldown_cmark's events for it.
pub fn render_markdown_block(text: &str, opts: &MarkdownRenderOptions) -> (r: Vec<StyledLine>)
    ensures
        lines_model(r@) == md_lines(
            md_blocks(md_tokens_of(text@), opts.base_style),
            (opts.label@, opts.label_style),
            opts.content_cols as nat,
            opts.base_style,
            opts.search_active,
            opts.search_query@,
        ),
{
    let blocks = parse_markdown(text, opts.base_style);
    render_blocks(&blocks, opts)
}

} // verus!
