//! Fitting styled text into a width of columns, and marking search matches in it.
use crate::text::{chars_of, lowercase, matches_at, string_of_range, to_lowercase, utf8_len, utf8_width};
use crate::ui::markdown::{chunks_model, StyledChunk};
use crate::ui::style::{lines_model, spans_model, Color, Modifiers, Span, Style, StyledLine};
use vstd::prelude::*;

verus! {

// ---------------------------------------------------------------------------
// Plain wrapping
// ---------------------------------------------------------------------------

/// `t` cut into pieces of `w` characters, the last one shorter.
pub open spec fn pieces(t: Seq<char>, w: nat) -> Seq<Seq<char>>
    decreases t.len(),
{
    if w == 0 || t.len() <= w {
        seq![t]
    } else {
        seq![t.take(w as int)] + pieces(t.skip(w as int), w)
    }
}

/// A line of text wrapped at `w` characters; an empty text, or no width, is one line.
pub open spec fn soft_wrapped(t: Seq<char>, w: nat) -> Seq<Seq<char>> {
    if w == 0 || t.len() == 0 {
        seq![t]
    } else {
        pieces(t, w)
    }
}

/// Cuts `text` into pieces of at most `max_cols` characters.
pub fn soft_wrap_plain(text: &str, max_cols: usize) -> (r: Vec<String>)
    ensures
        r@.map_values(|s: String| s@) == soft_wrapped(text@, max_cols as nat),
{
    let cs = chars_of(text);
    let mut out: Vec<String> = Vec::new();
    if max_cols == 0 || cs.len() == 0 {
        out.push(text.to_owned());
        assert(out@.map_values(|s: String| s@) =~= seq![text@]);
        return out;
    }
    let mut pos: usize = 0;
    assert(out@.map_values(|s: String| s@) =~= Seq::<Seq<char>>::empty());
    assert(cs@.skip(0) =~= cs@);
    while cs.len() - pos > max_cols
        invariant
            pos <= cs.len(),
            max_cols > 0,
            cs@ == text@,
            out@.map_values(|s: String| s@) + pieces(cs@.skip(pos as int), max_cols as nat)
                == pieces(cs@, max_cols as nat),
        decreases cs.len() - pos,
    {
        let piece = string_of_range(cs.as_slice(), pos, pos + max_cols);
        proof {
            let rest = cs@.skip(pos as int);
            assert(rest.take(max_cols as int) =~= piece@);
            assert(rest.skip(max_cols as int) =~= cs@.skip(pos + max_cols));
            assert(out@.push(piece).map_values(|s: String| s@) =~= out@.map_values(|s: String| s@).push(piece@));
            assert(seq![piece@] + pieces(cs@.skip(pos + max_cols), max_cols as nat) == pieces(rest, max_cols as nat));
            assert(out@.map_values(|s: String| s@).push(piece@) + pieces(cs@.skip(pos + max_cols), max_cols as nat)
                =~= out@.map_values(|s: String| s@) + (seq![piece@] + pieces(cs@.skip(pos + max_cols), max_cols as nat)));
        }
        out.push(piece);
        pos = pos + max_cols;
    }
    let last = string_of_range(cs.as_slice(), pos, cs.len());
    proof {
        assert(cs@.skip(pos as int) =~= last@);
        assert(out@.push(last).map_values(|s: String| s@) =~= out@.map_values(|s: String| s@).push(last@));
        assert(out@.map_values(|s: String| s@) + seq![last@] =~= out@.map_values(|s: String| s@).push(last@));
    }
    out.push(last);
    out
}

/// How many characters of `text` fit in `width` columns.
fn take_prefix_by_width(text: &[char], width: usize) -> (r: usize)
    ensures
        r == if width < text@.len() { width as nat } else { text@.len() },
{
    if width < text.len() {
        width
    } else {
        text.len()
    }
}

/// The columns a text takes: one per character.
pub fn char_width(text: &str) -> (r: usize)
    ensures
        r == text@.len(),
{
    chars_of(text).len()
}

// ---------------------------------------------------------------------------
// Search matches
// ---------------------------------------------------------------------------

/// Bytes UTF-8 takes for `s`.
pub open spec fn byte_len(s: Seq<char>) -> nat
    decreases s.len(),
{
    if s.len() == 0 {
        0
    } else {
        byte_len(s.drop_last()) + utf8_width(s.last())
    }
}

proof fn lemma_byte_len_step(s: Seq<char>, k: int)
    requires
        0 <= k < s.len(),
    ensures
        byte_len(s.take(k + 1)) == byte_len(s.take(k)) + utf8_width(s[k]),
        1 <= utf8_width(s[k]) <= 4,
{
    assert(s.take(k + 1).drop_last() =~= s.take(k));
}

proof fn lemma_byte_len_strict(s: Seq<char>, a: int, b: int)
    requires
        0 <= a < b <= s.len(),
    ensures
        byte_len(s.take(a)) < byte_len(s.take(b)),
    decreases b - a,
{
    lemma_byte_len_step(s, b - 1);
    if a < b - 1 {
        lemma_byte_len_strict(s, a, b - 1);
    }
}

/// The character index at which the byte offset `b` of `s` falls between two
/// characters, if it does.
pub open spec fn char_at_byte(s: Seq<char>, b: int) -> Option<int> {
    if exists|k: int| 0 <= k <= s.len() && byte_len(s.take(k)) == b {
        Some(choose|k: int| 0 <= k <= s.len() && byte_len(s.take(k)) == b)
    } else {
        None
    }
}

/// The style of a search match.
pub open spec fn match_style() -> Style {
    Style {
        fg: Some(Color::Black),
        bg: Some(Color::Yellow),
        add: Modifiers { bold: true, ..crate::ui::style::no_modifiers() },
    }
}

/// Spans made so far, and the character of the text up to which they reach.
pub struct HlState {
    pub spans: Seq<(Seq<char>, Style)>,
    pub last: int,
}

/// A match of the lower-cased query at character `m` of the lower-cased text `l`:
/// where both of its ends fall between characters of the text `t`, the text up
/// to it keeps its style and the match is marked.
pub open spec fn hl_match(t: Seq<char>, l: Seq<char>, qn: int, m: int, base: Style, st: HlState) -> HlState {
    let ks = char_at_byte(t, byte_len(l.take(m)) as int);
    let ke = char_at_byte(t, byte_len(l.take(m + qn)) as int);
    if ks is Some && ke is Some {
        let a = ks->0;
        let b = ke->0;
        HlState {
            spans: (if a > st.last {
                st.spans.push((t.subrange(st.last, a), base))
            } else {
                st.spans
            }).push((t.subrange(a, b), match_style())),
            last: b,
        }
    } else {
        st
    }
}

/// The matches of `q` in `l` from character `pos` on, left to right and not
/// overlapping.
pub open spec fn hl_scan(t: Seq<char>, l: Seq<char>, q: Seq<char>, pos: int, base: Style, st: HlState) -> HlState
    decreases l.len() - pos,
{
    if q.len() == 0 || pos < 0 || pos + q.len() > l.len() {
        st
    } else if l.subrange(pos, pos + q.len()) == q {
        hl_scan(t, l, q, pos + q.len(), base, hl_match(t, l, q.len() as int, pos, base, st))
    } else {
        hl_scan(t, l, q, pos + 1, base, st)
    }
}

/// `text` in style `base`, with the places where `query` occurs, case aside, marked.
pub open spec fn highlight_spans(text: Seq<char>, query: Seq<char>, base: Style) -> Seq<(Seq<char>, Style)> {
    if query.len() == 0 {
        seq![(text, base)]
    } else {
        let st = hl_scan(text, lowercase(text), lowercase(query), 0, base, HlState { spans: Seq::empty(), last: 0 });
        let spans = if st.last < text.len() {
            st.spans.push((text.subrange(st.last, text.len() as int), base))
        } else {
            st.spans
        };
        if spans.len() == 0 {
            seq![(text, base)]
        } else {
            spans
        }
    }
}

/// The byte offset of each character boundary of `cs`.
fn byte_offsets(cs: &Vec<char>) -> (r: Vec<u128>)
    ensures
        r@.len() == cs@.len() + 1,
        forall|k: int| 0 <= k <= cs@.len() ==> r@[k] == byte_len(#[trigger] cs@.take(k)),
{
    let mut r: Vec<u128> = Vec::new();
    let mut acc: u128 = 0;
    r.push(0);
    assert(cs@.take(0) =~= Seq::<char>::empty());
    let mut i: usize = 0;
    while i < cs.len()
        invariant
            i <= cs.len(),
            r@.len() == i + 1,
            acc == byte_len(cs@.take(i as int)),
            acc <= 4 * i,
            forall|k: int| 0 <= k <= i ==> r@[k] == byte_len(#[trigger] cs@.take(k)),
        decreases cs.len() - i,
    {
        proof {
            lemma_byte_len_step(cs@, i as int);
        }
        acc = acc + utf8_len(cs[i]) as u128;
        r.push(acc);
        i = i + 1;
    }
    r
}

proof fn lemma_byte_len_bound(s: Seq<char>)
    ensures
        byte_len(s) <= 4 * s.len(),
    decreases s.len(),
{
    if s.len() > 0 {
        lemma_byte_len_bound(s.drop_last());
    }
}

/// Bytes UTF-8 takes for `s` (`str::len`).
pub(crate) fn byte_count(s: &str) -> (r: u128)
    ensures
        r == byte_len(s@),
        r <= 4 * s@.len(),
        s@.len() <= usize::MAX,
{
    let cs = chars_of(s);
    let off = byte_offsets(&cs);
    proof {
        assert(cs@.take(cs@.len() as int) =~= s@);
        lemma_byte_len_bound(s@);
    }
    off[cs.len()]
}

/// The character index of byte offset `b`, given the offsets of `cs`.
fn index_of_offset(cs: &Vec<char>, offsets: &Vec<u128>, b: u128) -> (r: Option<usize>)
    requires
        offsets@.len() == cs@.len() + 1,
        forall|k: int| 0 <= k <= cs@.len() ==> offsets@[k] == byte_len(#[trigger] cs@.take(k)),
    ensures
        match r {
            Some(k) => char_at_byte(cs@, b as int) == Some(k as int) && k <= cs@.len(),
            None => char_at_byte(cs@, b as int) is None,
        },
{
    let mut k: usize = 0;
    while k < offsets.len()
        invariant
            offsets@.len() == cs@.len() + 1,
            forall|j: int| 0 <= j <= cs@.len() ==> offsets@[j] == byte_len(#[trigger] cs@.take(j)),
            k <= offsets@.len(),
            forall|j: int| 0 <= j < k ==> byte_len(#[trigger] cs@.take(j)) != b,
        decreases offsets.len() - k,
    {
        if offsets[k] == b {
            proof {
                assert(byte_len(cs@.take(k as int)) == b);
                let c = choose|j: int| 0 <= j <= cs@.len() && byte_len(cs@.take(j)) == b;
                if c < k {
                    lemma_byte_len_strict(cs@, c, k as int);
                } else if c > k {
                    lemma_byte_len_strict(cs@, k as int, c);
                }
            }
            return Some(k);
        }
        k = k + 1;
    }
    None
}

fn copy_span(text: &Vec<char>, from: usize, to: usize, style: Style) -> (r: Span)
    requires
        from <= to <= text@.len(),
    ensures
        r.model() == (text@.subrange(from as int, to as int), style),
{
    Span::styled(string_of_range(text.as_slice(), from, to), style)
}

/// `text` in style `base`, with the places where `query` occurs, case aside, marked
/// black on yellow in bold. A match is marked only where both of its ends, as byte
/// offsets of the lower-cased text, fall between characters of `text`.
pub fn split_for_highlight(text: &str, query: &str, base: Style) -> (r: Vec<Span>)
    ensures
        spans_model(r@) == highlight_spans(text@, query@, base),
{
    let hl = Style::new().fg(Color::Black).bg(Color::Yellow).add_modifier(Modifiers::bold());
    assert(hl == match_style());
    let mut spans: Vec<Span> = Vec::new();
    if query.is_empty() {
        spans.push(Span::styled(text.to_owned(), base));
        assert(spans_model(spans@) =~= seq![(text@, base)]);
        return spans;
    }
    let ql = to_lowercase(query);
    let tl = to_lowercase(text);
    let tc = chars_of(text);
    let lc = chars_of(tl.as_str());
    let qc = chars_of(ql.as_str());
    let toff = byte_offsets(&tc);
    let loff = byte_offsets(&lc);
    let ghost t = text@;
    let ghost l = lc@;
    let ghost q = qc@;
    let ghost start = HlState { spans: Seq::empty(), last: 0 };
    let mut last: usize = 0;
    let mut pos: usize = 0;
    let qn = qc.len();
    assert(spans_model(spans@) =~= Seq::empty());
    while qn <= lc.len() && pos <= lc.len() - qn
        invariant
            hl == match_style(),
            t == tc@,
            l == lc@,
            q == qc@,
            l == lowercase(text@),
            q == lowercase(query@),
            qn == q.len(),
            qn > 0,
            toff@.len() == tc@.len() + 1,
            forall|k: int| 0 <= k <= tc@.len() ==> toff@[k] == byte_len(#[trigger] tc@.take(k)),
            loff@.len() == lc@.len() + 1,
            forall|k: int| 0 <= k <= lc@.len() ==> loff@[k] == byte_len(#[trigger] lc@.take(k)),
            last <= tc@.len(),
            pos <= lc@.len(),
            hl_scan(t, l, q, 0, base, start) == hl_scan(
                t,
                l,
                q,
                pos as int,
                base,
                HlState { spans: spans_model(spans@), last: last as int },
            ),
        decreases lc.len() - pos,
    {
        let ghost st = HlState { spans: spans_model(spans@), last: last as int };
        if matches_at(&lc, &qc, pos) {
            let ks = index_of_offset(&tc, &toff, loff[pos]);
            let ke = index_of_offset(&tc, &toff, loff[pos + qn]);
            proof {
                assert(loff@[pos as int] == byte_len(lc@.take(pos as int)));
                assert(loff@[pos + qn] == byte_len(lc@.take(pos + qn)));
                assert(ks is Some <==> char_at_byte(t, byte_len(l.take(pos as int)) as int) is Some);
                assert(ke is Some <==> char_at_byte(t, byte_len(l.take(pos + qn)) as int) is Some);
            }
            match (ks, ke) {
                (Some(a), Some(b)) => {
                    proof {
                        lemma_byte_len_strict(l, pos as int, pos + qn);
                        assert(byte_len(t.take(a as int)) == byte_len(l.take(pos as int)));
                        assert(byte_len(t.take(b as int)) == byte_len(l.take(pos + qn)));
                        if b < a {
                            lemma_byte_len_strict(t, b as int, a as int);
                        }
                    }
                    assert(char_at_byte(t, byte_len(l.take(pos as int)) as int) == Some(a as int));
                    assert(char_at_byte(t, byte_len(l.take(pos + qn)) as int) == Some(b as int));
                    let ghost mid = if a > last {
                        st.spans.push((t.subrange(last as int, a as int), base))
                    } else {
                        st.spans
                    };
                    if a > last {
                        let ghost before = spans@;
                        let sp = copy_span(&tc, last, a, base);
                        spans.push(sp);
                        assert(spans_model(spans@) =~= spans_model(before).push(sp.model()));
                    }
                    assert(spans_model(spans@) == mid);
                    let ghost before2 = spans@;
                    let sp2 = copy_span(&tc, a, b, hl);
                    spans.push(sp2);
                    assert(spans_model(spans@) =~= spans_model(before2).push(sp2.model()));
                    last = b;
                    assert(HlState { spans: spans_model(spans@), last: last as int } == hl_match(
                        t,
                        l,
                        qn as int,
                        pos as int,
                        base,
                        st,
                    ));
                },
                _ => {
                    assert(st == hl_match(t, l, qn as int, pos as int, base, st));
                },
            }
            pos = pos + qn;
        } else {
            pos = pos + 1;
        }
    }
    let ghost fin = HlState { spans: spans_model(spans@), last: last as int };
    assert(hl_scan(t, l, q, pos as int, base, fin) == fin);
    if last < tc.len() {
        let ghost before = spans@;
        let sp = copy_span(&tc, last, tc.len(), base);
        spans.push(sp);
        assert(spans_model(spans@) =~= spans_model(before).push(sp.model()));
    }
    if spans.len() == 0 {
        spans.push(Span::styled(text.to_owned(), base));
        assert(spans_model(spans@) =~= seq![(text@, base)]);
    }
    spans
}

// ---------------------------------------------------------------------------
// Wrapping styled text
// ---------------------------------------------------------------------------

/// Lines finished, the line being filled and the columns left on it.
pub struct WrapState {
    pub result: Seq<Seq<(Seq<char>, Style)>>,
    pub current: Seq<(Seq<char>, Style)>,
    pub remaining: nat,
}

/// Laying `seg` in style `style` onto lines of `width` columns: as much as fits
/// goes on the current line, and a full line is closed when text is left over.
pub open spec fn wrap_seg(st: WrapState, seg: Seq<char>, style: Style, width: nat) -> WrapState
    decreases seg.len(), (if st.remaining == 0 { 1int } else { 0int }),
{
    if seg.len() == 0 || width == 0 {
        st
    } else {
        let take: nat = if st.remaining < seg.len() { st.remaining } else { seg.len() };
        let cur = st.current.push((seg.take(take as int), style));
        let rest = seg.skip(take as int);
        let rem = (st.remaining - take) as nat;
        if rem == 0 && rest.len() > 0 {
            wrap_seg(
                WrapState { result: st.result.push(cur), current: Seq::empty(), remaining: width },
                rest,
                style,
                width,
            )
        } else {
            wrap_seg(WrapState { result: st.result, current: cur, remaining: rem }, rest, style, width)
        }
    }
}

pub open spec fn wrap_spans(st: WrapState, spans: Seq<(Seq<char>, Style)>, width: nat) -> WrapState
    decreases spans.len(),
{
    if spans.len() == 0 {
        st
    } else {
        wrap_seg(wrap_spans(st, spans.drop_last(), width), spans.last().0, spans.last().1, width)
    }
}

/// The spans of a chunk: its text, with search matches marked while a search shows.
pub open spec fn chunk_spans(c: (Seq<char>, Style), active: bool, query: Seq<char>) -> Seq<(Seq<char>, Style)> {
    if active && query.len() > 0 {
        highlight_spans(c.0, query, c.1)
    } else {
        seq![c]
    }
}

/// A chunk laid out; a chunk holding a line break ends the line after it.
pub open spec fn wrap_chunk(st: WrapState, c: (Seq<char>, Style), active: bool, query: Seq<char>, width: nat) -> WrapState {
    let st2 = wrap_spans(st, chunk_spans(c, active, query), width);
    if c.0.contains('\n') {
        WrapState { result: st2.result.push(st2.current), current: Seq::empty(), remaining: width }
    } else {
        st2
    }
}

pub open spec fn wrap_all(chunks: Seq<(Seq<char>, Style)>, active: bool, query: Seq<char>, width: nat) -> WrapState
    decreases chunks.len(),
{
    if chunks.len() == 0 {
        WrapState { result: Seq::empty(), current: Seq::empty(), remaining: width }
    } else {
        wrap_chunk(wrap_all(chunks.drop_last(), active, query, width), chunks.last(), active, query, width)
    }
}

/// Chunks of styled text on lines of `width` columns; never no line.
pub open spec fn wrap_lines(chunks: Seq<(Seq<char>, Style)>, width: nat, active: bool, query: Seq<char>) -> Seq<Seq<(Seq<char>, Style)>> {
    if width == 0 {
        seq![Seq::empty()]
    } else {
        let st = wrap_all(chunks, active, query, width);
        let res = if st.current.len() > 0 { st.result.push(st.current) } else { st.result };
        if res.len() == 0 {
            seq![Seq::empty()]
        } else {
            res
        }
    }
}

struct LineBuilder {
    result: Vec<StyledLine>,
    current: Vec<Span>,
    remaining: usize,
}

impl LineBuilder {
    spec fn model(&self) -> WrapState {
        WrapState {
            result: lines_model(self.result@),
            current: spans_model(self.current@),
            remaining: self.remaining as nat,
        }
    }

    fn break_line(&mut self, width: usize)
        ensures
            final(self).model() == (WrapState {
                result: old(self).model().result.push(old(self).model().current),
                current: Seq::empty(),
                remaining: width as nat,
            }),
    {
        let mut line: Vec<Span> = Vec::new();
        std::mem::swap(&mut line, &mut self.current);
        let l = StyledLine::from_spans(line);
        let ghost lm = l.model();
        self.result.push(l);
        self.remaining = width;
        assert(lines_model(self.result@) =~= lines_model(old(self).result@).push(lm));
        assert(spans_model(self.current@) =~= Seq::<(Seq<char>, Style)>::empty());
    }

    fn segment(&mut self, seg: &Vec<char>, style: Style, width: usize)
        requires
            width > 0,
        ensures
            final(self).model() == wrap_seg(old(self).model(), seg@, style, width as nat),
    {
        let ghost m0 = self.model();
        let mut pos: usize = 0;
        assert(seg@.skip(0) =~= seg@);
        while pos < seg.len()
            invariant
                width > 0,
                pos <= seg@.len(),
                wrap_seg(m0, seg@, style, width as nat) == wrap_seg(
                    self.model(),
                    seg@.skip(pos as int),
                    style,
                    width as nat,
                ),
            decreases seg.len() - pos, (if self.remaining == 0 { 1int } else { 0int }),
        {
            let ghost m = self.model();
            let ghost rest0 = seg@.skip(pos as int);
            let take = take_prefix_by_width(vstd::slice::slice_subrange(seg.as_slice(), pos, seg.len()), self.remaining);
            let piece = string_of_range(seg.as_slice(), pos, pos + take);
            let ghost before = self.current@;
            let used = char_width(piece.as_str());
            let sp = Span::styled(piece, style);
            let ghost spm = sp.model();
            self.current.push(sp);
            proof {
                assert(rest0.take(take as int) =~= spm.0);
                assert(spans_model(self.current@) =~= spans_model(before).push((rest0.take(take as int), style)));
                assert(rest0.skip(take as int) =~= seg@.skip(pos + take));
            }
            pos = pos + take;
            self.remaining = self.remaining - used;
            if self.remaining == 0 && pos < seg.len() {
                self.break_line(width);
            }
        }
        proof {
            assert(seg@.skip(pos as int).len() == 0);
        }
    }

    fn spans(&mut self, spans: &Vec<Span>, width: usize)
        requires
            width > 0,
        ensures
            final(self).model() == wrap_spans(old(self).model(), spans_model(spans@), width as nat),
    {
        let ghost m0 = self.model();
        let mut i: usize = 0;
        assert(spans_model(spans@).take(0) =~= Seq::<(Seq<char>, Style)>::empty());
        while i < spans.len()
            invariant
                width > 0,
                i <= spans@.len(),
                self.model() == wrap_spans(m0, spans_model(spans@).take(i as int), width as nat),
            decreases spans.len() - i,
        {
            let cs = chars_of(spans[i].text.as_str());
            self.segment(&cs, spans[i].style, width);
            proof {
                let sm = spans_model(spans@);
                assert(sm.take(i + 1).drop_last() =~= sm.take(i as int));
                assert(sm.take(i + 1).last() == spans@[i as int].model());
            }
            i = i + 1;
        }
        assert(spans_model(spans@).take(spans.len() as int) =~= spans_model(spans@));
    }
}

/// Whether the text holds a line break.
fn has_newline(s: &str) -> (r: bool)
    ensures
        r == s@.contains('\n'),
{
    let cs = chars_of(s);
    let mut i: usize = 0;
    while i < cs.len()
        invariant
            i <= cs@.len(),
            cs@ == s@,
            forall|k: int| 0 <= k < i ==> cs@[k] != '\n',
        decreases cs.len() - i,
    {
        if cs[i] == '\n' {
            assert(s@[i as int] == '\n');
            return true;
        }
        i = i + 1;
    }
    false
}

/// Options for laying out Markdown: the label of the first line, the columns for
/// text, the style text starts in, and the search whose matches are marked.
pub struct MarkdownRenderOptions {
    pub label: String,
    pub label_style: Style,
    pub content_cols: usize,
    pub base_style: Style,
    pub search_query: String,
    pub search_active: bool,
}

/// Chunks of styled text on lines of `width` columns. While a search shows, its
/// matches are marked. Text goes on the current line as long as it fits; a chunk
/// holding a line break ends its line.
pub fn wrap_chunks(chunks: &Vec<StyledChunk>, width: usize, _prefix: &str, opts: &MarkdownRenderOptions) -> (r: Vec<StyledLine>)
    ensures
        lines_model(r@) == wrap_lines(chunks_model(chunks@), width as nat, opts.search_active, opts.search_query@),
{
    let mut out: Vec<StyledLine> = Vec::new();
    if width == 0 {
        out.push(StyledLine::empty());
        assert(lines_model(out@) =~= seq![Seq::<(Seq<char>, Style)>::empty()]);
        return out;
    }
    let active = opts.search_active && !opts.search_query.as_str().is_empty();
    let mut w = LineBuilder { result: Vec::new(), current: Vec::new(), remaining: width };
    let ghost cm = chunks_model(chunks@);
    proof {
        assert(lines_model(w.result@) =~= Seq::<Seq<(Seq<char>, Style)>>::empty());
        assert(spans_model(w.current@) =~= Seq::<(Seq<char>, Style)>::empty());
        assert(cm.take(0) =~= Seq::<(Seq<char>, Style)>::empty());
    }
    let mut i: usize = 0;
    while i < chunks.len()
        invariant
            width > 0,
            i <= chunks@.len(),
            cm == chunks_model(chunks@),
            active == (opts.search_active && opts.search_query@.len() > 0),
            w.model() == wrap_all(cm.take(i as int), opts.search_active, opts.search_query@, width as nat),
        decreases chunks.len() - i,
    {
        let chunk = &chunks[i];
        let spans = if active {
            split_for_highlight(chunk.text.as_str(), opts.search_query.as_str(), chunk.style)
        } else {
            let mut v: Vec<Span> = Vec::new();
            v.push(Span::styled(chunk.text.clone(), chunk.style));
            assert(spans_model(v@) =~= seq![chunk.model()]);
            v
        };
        w.spans(&spans, width);
        if has_newline(chunk.text.as_str()) {
            w.break_line(width);
        }
        proof {
            assert(cm.take(i + 1).drop_last() =~= cm.take(i as int));
            assert(cm.take(i + 1).last() == chunk.model());
        }
        i = i + 1;
    }
    assert(cm.take(chunks.len() as int) =~= cm);
    if w.current.len() > 0 {
        w.break_line(width);
    }
    let mut result = w.result;
    if result.len() == 0 {
        result.push(StyledLine::empty());
        assert(lines_model(result@) =~= seq![Seq::<(Seq<char>, Style)>::empty()]);
    }
    result
}

// ---------------------------------------------------------------------------
// Laws
// ---------------------------------------------------------------------------

/// Texts one after the other.
pub open spec fn flat(ss: Seq<Seq<char>>) -> Seq<char>
    decreases ss.len(),
{
    if ss.len() == 0 {
        Seq::empty()
    } else {
        ss[0] + flat(ss.drop_first())
    }
}

proof fn lemma_pieces(t: Seq<char>, w: nat)
    requires
        w > 0,
        t.len() > 0,
    ensures
        flat(pieces(t, w)) == t,
        forall|i: int| 0 <= i < pieces(t, w).len() ==> 0 < (#[trigger] pieces(t, w)[i]).len() <= w,
    decreases t.len(),
{
    if t.len() > w {
        let rest = t.skip(w as int);
        lemma_pieces(rest, w);
        let ps = pieces(t, w);
        assert(ps.drop_first() =~= pieces(rest, w));
        assert(t.take(w as int) + rest =~= t);
        assert forall|i: int| 0 <= i < ps.len() implies 0 < (#[trigger] ps[i]).len() <= w by {
            if i > 0 {
                assert(ps[i] == pieces(rest, w)[i - 1]);
            }
        }
    } else {
        assert(pieces(t, w) =~= seq![t]);
        assert(flat(seq![t]) =~= t + flat(seq![t].drop_first()));
        assert(seq![t].drop_first() =~= Seq::<Seq<char>>::empty());
    }
}

/// Wrapping a line loses no text: its pieces, one after the other, are the line;
/// with a width, each piece holds at least one and at most that many characters.
pub proof fn law_soft_wrap_keeps_text(t: Seq<char>, w: nat)
    ensures
        flat(soft_wrapped(t, w)) == t,
        w > 0 && t.len() > 0 ==> forall|i: int|
            0 <= i < soft_wrapped(t, w).len() ==> 0 < (#[trigger] soft_wrapped(t, w)[i]).len() <= w,
{
    if w > 0 && t.len() > 0 {
        lemma_pieces(t, w);
    } else {
        assert(flat(seq![t]) =~= t + flat(seq![t].drop_first()));
        assert(seq![t].drop_first() =~= Seq::<Seq<char>>::empty());
    }
}

/// The columns a line of spans takes.
pub open spec fn line_width(l: Seq<(Seq<char>, Style)>) -> nat
    decreases l.len(),
{
    if l.len() == 0 {
        0
    } else {
        line_width(l.drop_last()) + l.last().0.len()
    }
}

pub open spec fn fits(st: WrapState, w: nat) -> bool {
    &&& forall|i: int| 0 <= i < st.result.len() ==> line_width(#[trigger] st.result[i]) <= w
    &&& line_width(st.current) + st.remaining <= w
}

proof fn lemma_seg_fits(st: WrapState, seg: Seq<char>, style: Style, w: nat)
    requires
        w > 0,
        fits(st, w),
    ensures
        fits(wrap_seg(st, seg, style, w), w),
    decreases seg.len(), (if st.remaining == 0 { 1int } else { 0int }),
{
    if seg.len() > 0 {
        let take: nat = if st.remaining < seg.len() { st.remaining } else { seg.len() };
        let cur = st.current.push((seg.take(take as int), style));
        let rest = seg.skip(take as int);
        let rem = (st.remaining - take) as nat;
        assert(cur.drop_last() =~= st.current);
        assert(line_width(cur) == line_width(st.current) + take);
        if rem == 0 && rest.len() > 0 {
            let next = WrapState { result: st.result.push(cur), current: Seq::empty(), remaining: w };
            assert(fits(next, w)) by {
                assert forall|i: int| 0 <= i < next.result.len() implies line_width(#[trigger] next.result[i]) <= w by {
                    if i < st.result.len() {
                        assert(next.result[i] == st.result[i]);
                    }
                }
            }
            lemma_seg_fits(next, rest, style, w);
        } else {
            lemma_seg_fits(WrapState { result: st.result, current: cur, remaining: rem }, rest, style, w);
        }
    }
}

proof fn lemma_spans_fit(st: WrapState, spans: Seq<(Seq<char>, Style)>, w: nat)
    requires
        w > 0,
        fits(st, w),
    ensures
        fits(wrap_spans(st, spans, w), w),
    decreases spans.len(),
{
    if spans.len() > 0 {
        lemma_spans_fit(st, spans.drop_last(), w);
        lemma_seg_fits(wrap_spans(st, spans.drop_last(), w), spans.last().0, spans.last().1, w);
    }
}

proof fn lemma_all_fit(chunks: Seq<(Seq<char>, Style)>, active: bool, query: Seq<char>, w: nat)
    requires
        w > 0,
    ensures
        fits(wrap_all(chunks, active, query, w), w),
    decreases chunks.len(),
{
    if chunks.len() == 0 {
        assert(line_width(Seq::<(Seq<char>, Style)>::empty()) == 0);
    } else {
        lemma_all_fit(chunks.drop_last(), active, query, w);
        let st = wrap_all(chunks.drop_last(), active, query, w);
        let st2 = wrap_spans(st, chunk_spans(chunks.last(), active, query), w);
        lemma_spans_fit(st, chunk_spans(chunks.last(), active, query), w);
        if chunks.last().0.contains('\n') {
            let next = WrapState { result: st2.result.push(st2.current), current: Seq::empty(), remaining: w };
            assert forall|i: int| 0 <= i < next.result.len() implies line_width(#[trigger] next.result[i]) <= w by {
                if i < st2.result.len() {
                    assert(next.result[i] == st2.result[i]);
                }
            }
            assert(line_width(Seq::<(Seq<char>, Style)>::empty()) == 0);
        }
    }
}

/// No wrapped line is wider than the width it was wrapped to.
pub proof fn law_wrapped_lines_fit(chunks: Seq<(Seq<char>, Style)>, w: nat, active: bool, query: Seq<char>)
    requires
        w > 0,
    ensures
        forall|i: int|
            0 <= i < wrap_lines(chunks, w, active, query).len() ==> line_width(
                #[trigger] wrap_lines(chunks, w, active, query)[i],
            ) <= w,
        wrap_lines(chunks, w, active, query).len() > 0,
{
    lemma_all_fit(chunks, active, query, w);
    let st = wrap_all(chunks, active, query, w);
    let res = if st.current.len() > 0 { st.result.push(st.current) } else { st.result };
    assert forall|i: int| 0 <= i < res.len() implies line_width(#[trigger] res[i]) <= w by {
        if i < st.result.len() {
            assert(res[i] == st.result[i]);
        }
    }
    assert(line_width(Seq::<(Seq<char>, Style)>::empty()) == 0);
}

pub open spec fn span_texts(spans: Seq<(Seq<char>, Style)>) -> Seq<Seq<char>> {
    spans.map_values(|s: (Seq<char>, Style)| s.0)
}

proof fn lemma_flat_one(x: Seq<char>)
    ensures
        flat(seq![x]) == x,
{
    assert(seq![x].drop_first() =~= Seq::<Seq<char>>::empty());
    assert(flat(Seq::<Seq<char>>::empty()) == Seq::<char>::empty());
    assert(x + Seq::<char>::empty() =~= x);
}

proof fn lemma_flat_push(ss: Seq<Seq<char>>, x: Seq<char>)
    ensures
        flat(ss.push(x)) == flat(ss) + x,
    decreases ss.len(),
{
    if ss.len() == 0 {
        assert(ss.push(x) =~= seq![x]);
        lemma_flat_one(x);
        assert(flat(ss) + x =~= x);
    } else {
        assert(ss.push(x).drop_first() =~= ss.drop_first().push(x));
        lemma_flat_push(ss.drop_first(), x);
        assert(flat(ss.push(x)) =~= flat(ss) + x);
    }
}

proof fn lemma_texts_push(spans: Seq<(Seq<char>, Style)>, x: (Seq<char>, Style))
    ensures
        flat(span_texts(spans.push(x))) == flat(span_texts(spans)) + x.0,
{
    assert(span_texts(spans.push(x)) =~= span_texts(spans).push(x.0));
    lemma_flat_push(span_texts(spans), x.0);
}

proof fn lemma_byte_len_mono(s: Seq<char>, a: int, b: int)
    requires
        0 <= a <= b <= s.len(),
    ensures
        byte_len(s.take(a)) <= byte_len(s.take(b)),
{
    if a < b {
        lemma_byte_len_strict(s, a, b);
    }
}

/// What a scan has made so far: the text up to `last`, with `last` no further
/// into the text than `pos` is into the lower-cased text.
pub open spec fn hl_inv(t: Seq<char>, l: Seq<char>, pos: int, st: HlState) -> bool {
    &&& 0 <= st.last <= t.len()
    &&& 0 <= pos <= l.len()
    &&& flat(span_texts(st.spans)) == t.take(st.last)
    &&& byte_len(t.take(st.last)) <= byte_len(l.take(pos))
}

proof fn lemma_hl_match(t: Seq<char>, l: Seq<char>, qn: int, m: int, base: Style, st: HlState)
    requires
        qn > 0,
        m + qn <= l.len(),
        hl_inv(t, l, m, st),
    ensures
        hl_inv(t, l, m + qn, hl_match(t, l, qn, m, base, st)),
{
    lemma_byte_len_mono(l, m, m + qn);
    let ks = char_at_byte(t, byte_len(l.take(m)) as int);
    let ke = char_at_byte(t, byte_len(l.take(m + qn)) as int);
    if ks is Some && ke is Some {
        let a = ks->0;
        let b = ke->0;
        assert(0 <= a <= t.len() && byte_len(t.take(a)) == byte_len(l.take(m)));
        assert(0 <= b <= t.len() && byte_len(t.take(b)) == byte_len(l.take(m + qn)));
        if a < st.last {
            lemma_byte_len_strict(t, a, st.last);
        }
        if b < a {
            lemma_byte_len_strict(t, b, a);
        }
        let mid = if a > st.last { st.spans.push((t.subrange(st.last, a), base)) } else { st.spans };
        if a > st.last {
            lemma_texts_push(st.spans, (t.subrange(st.last, a), base));
            assert(t.take(st.last) + t.subrange(st.last, a) =~= t.take(a));
        }
        assert(flat(span_texts(mid)) == t.take(a));
        lemma_texts_push(mid, (t.subrange(a, b), match_style()));
        assert(t.take(a) + t.subrange(a, b) =~= t.take(b));
    }
}

proof fn lemma_hl_scan(t: Seq<char>, l: Seq<char>, q: Seq<char>, pos: int, base: Style, st: HlState)
    requires
        q.len() > 0,
        hl_inv(t, l, pos, st),
    ensures
        ({
            let r = hl_scan(t, l, q, pos, base, st);
            &&& 0 <= r.last <= t.len()
            &&& flat(span_texts(r.spans)) == t.take(r.last)
        }),
    decreases l.len() - pos,
{
    if pos + q.len() <= l.len() {
        if l.subrange(pos, pos + q.len()) == q {
            lemma_hl_match(t, l, q.len() as int, pos, base, st);
            lemma_hl_scan(t, l, q, pos + q.len(), base, hl_match(t, l, q.len() as int, pos, base, st));
        } else {
            lemma_byte_len_mono(l, pos, pos + 1);
            lemma_hl_scan(t, l, q, pos + 1, base, st);
        }
    }
}

/// Marking search matches never changes the text: the spans, one after the other,
/// are the text.
pub proof fn law_marking_keeps_text(text: Seq<char>, query: Seq<char>, base: Style)
    ensures
        flat(span_texts(highlight_spans(text, query, base))) == text,
{
    let one = seq![(text, base)];
    assert(span_texts(one) =~= seq![text]);
    lemma_flat_one(text);
    if query.len() > 0 {
        let q = lowercase(query);
        let l = lowercase(text);
        let start = HlState { spans: Seq::empty(), last: 0 };
        assert(text.take(0) =~= Seq::<char>::empty());
        assert(l.take(0) =~= Seq::<char>::empty());
        assert(span_texts(start.spans) =~= Seq::<Seq<char>>::empty());
        let st = hl_scan(text, l, q, 0, base, start);
        if q.len() > 0 {
            lemma_hl_scan(text, l, q, 0, base, start);
        } else {
            assert(st == start);
        }
        let spans = if st.last < text.len() {
            st.spans.push((text.subrange(st.last, text.len() as int), base))
        } else {
            st.spans
        };
        if st.last < text.len() {
            lemma_texts_push(st.spans, (text.subrange(st.last, text.len() as int), base));
            assert(text.take(st.last) + text.subrange(st.last, text.len() as int) =~= text);
        } else {
            assert(text.take(st.last) =~= text);
        }
        assert(flat(span_texts(spans)) == text);
        if spans.len() > 0 {
            assert(highlight_spans(text, query, base) == spans);
        } else {
            assert(highlight_spans(text, query, base) == one);
        }
    }
}

} // verus!
