//! The raw lines of a run, numbered and cut to the width.
use crate::text::{byte_prefix, decimal, push_decimal_wide, truncate_str};
use crate::ui::highlight::two_spans;
use crate::ui::markdown::repeat_char;
use crate::ui::style::{lines_model, no_modifiers, plain, Color, Modifiers, Span, Style, StyledLine};
use crate::ui::style::fg_only;
use crate::ui::transcript::push_line;
use crate::ui::wrap::byte_len;
use vstd::prelude::*;

verus! {

/// `s` right-aligned in `w` columns (`{:>w$}`).
pub open spec fn right_aligned(s: Seq<char>, w: nat) -> Seq<char> {
    if s.len() >= w {
        s
    } else {
        repeat_char(' ', (w - s.len()) as nat) + s
    }
}

/// The width of the line-number gutter: the digits of the line count, at least 4.
pub open spec fn gutter_width(total: nat) -> nat {
    if decimal(total).len() > 4 {
        decimal(total).len()
    } else {
        4
    }
}

pub open spec fn number_style() -> Style {
    Style { fg: Some(Color::DarkGray), add: Modifiers { dim: true, ..no_modifiers() }, ..plain() }
}

/// A raw line: its number in the gutter, then as much of it as fits in `cw` bytes
/// (all of it when `cw` is zero).
pub open spec fn raw_line(n: nat, line: Seq<char>, gutter: nat, cw: nat) -> Seq<(Seq<char>, Style)> {
    seq![
        (right_aligned(decimal(n), gutter) + seq![' '], number_style()),
        (if byte_len(line) > cw && cw > 0 { byte_prefix(line, cw) } else { line }, fg_only(Color::White)),
    ]
}

pub open spec fn raw_lines_model(lines: Seq<Seq<char>>, total: nat, inner_width: nat) -> Seq<Seq<(Seq<char>, Style)>> {
    let g = gutter_width(total);
    let cw: nat = if inner_width >= g + 1 { (inner_width - (g + 1)) as nat } else { 0 };
    Seq::new(lines.len(), |i: int| raw_line((i + 1) as nat, lines[i], g, cw))
}

/// The raw lines of a run, each numbered and cut to the width of the pane
/// (`inner_width` columns): the number right-aligned in a gutter as wide as the
/// line count's digits (at least 4), then as many whole characters of the line as
/// fit in the bytes left.
pub fn raw_lines_view(raw_lines: &Vec<String>, inner_width: usize) -> (r: Vec<StyledLine>)
    ensures
        lines_model(r@) == raw_lines_model(raw_lines@.map_values(|s: String| s@), raw_lines@.len(), inner_width as nat),
{
    let ghost lm = raw_lines@.map_values(|s: String| s@);
    let total = raw_lines.len();
    let mut digits = String::new();
    push_decimal_wide(&mut digits, total as u128);
    let nd = crate::ui::wrap::char_width(digits.as_str());
    let g: usize = if nd > 4 { nd } else { 4 };
    let cw: usize = if inner_width >= g && inner_width - g >= 1 { inner_width - (g + 1) } else { 0 };
    let ghost want = raw_lines_model(lm, total as nat, inner_width as nat);
    let mut out: Vec<StyledLine> = Vec::new();
    let mut i: usize = 0;
    assert(lines_model(out@) =~= want.take(0));
    while i < total
        invariant
            i <= total,
            total == raw_lines@.len(),
            lm == raw_lines@.map_values(|s: String| s@),
            g == gutter_width(total as nat),
            cw as nat == (if inner_width >= g + 1 { (inner_width - (g + 1)) as nat } else { 0nat }),
            want == raw_lines_model(lm, total as nat, inner_width as nat),
            lines_model(out@) == want.take(i as int),
        decreases total - i,
    {
        let mut num = String::new();
        let mut d = String::new();
        push_decimal_wide(&mut d, (i + 1) as u128);
        let dl = crate::ui::wrap::char_width(d.as_str());
        if dl < g {
            num = crate::ui::markdown::repeat(' ', g - dl);
        }
        crate::json::append_str(&mut num, d.as_str());
        crate::text::push_char(&mut num, ' ');
        assert(num@ =~= right_aligned(decimal((i + 1) as nat), g as nat) + seq![' ']);
        let line = &raw_lines[i];
        let nb = crate::ui::wrap::byte_count(line.as_str());
        let shown = if nb > cw as u128 && cw > 0 {
            truncate_str(line.as_str(), cw)
        } else {
            line.clone()
        };
        let l = two_spans(
            Span::styled(num, Style::new().fg(Color::DarkGray).add_modifier(Modifiers::dim())),
            Span::styled(shown, Style::new().fg(Color::White)),
        );
        assert(l.model() =~~= want[i as int]);
        push_line(&mut out, l);
        assert(want.take(i + 1) =~= want.take(i as int).push(want[i as int]));
        i = i + 1;
    }
    assert(want.take(total as int) =~= want);
    out
}

} // verus!
