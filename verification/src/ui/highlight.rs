//! Edits and patches as coloured diffs, their code highlighted by syntect.
use syntect::easy::HighlightLines;
use syntect::highlighting::ThemeSet;
use syntect::parsing::SyntaxSet;

use crate::json::{append_str, or_default, str_field, Json, JsonValue};
use crate::text::{lines_of, push_char, split_lines};
use crate::ui::markdown::{dim_style, repeat_char, string_of_char};
use crate::ui::style::{
    fg_only, lines_model, no_modifiers, plain, spans_model, with_fg, with_mods, Color, Modifiers, Span,
    Style, StyledLine,
};
use vstd::prelude::*;

verus! {

#[verifier::external_type_specification]
#[verifier::external_body]
pub struct ExSyntaxSet(SyntaxSet);

#[verifier::external_type_specification]
#[verifier::external_body]
pub struct ExThemeSet(ThemeSet);

/// The syntax definitions and colour themes that syntect ships with.
pub struct Highlighter {
    syntaxes: SyntaxSet,
    themes: ThemeSet,
}

/// `SyntaxSet::load_defaults_newlines`.
#[verifier::external_body]
fn default_syntaxes() -> SyntaxSet {
    SyntaxSet::load_defaults_newlines()
}

/// `ThemeSet::load_defaults`.
#[verifier::external_body]
fn default_themes() -> ThemeSet {
    ThemeSet::load_defaults()
}

impl Highlighter {
    /// syntect's default syntaxes (for lines with their newlines) and themes.
    pub fn new() -> Highlighter {
        Highlighter { syntaxes: default_syntaxes(), themes: default_themes() }
    }
}

/// A highlighted region of a line: its foreground colour, syntect's font-style
/// bits (1 bold, 2 underline, 4 italic) and its text.
pub struct Region {
    pub r: u8,
    pub g: u8,
    pub b: u8,
    pub font: u8,
    pub text: String,
}

pub open spec fn regions_view(r: Option<Vec<Region>>) -> Option<Seq<(u8, u8, u8, u8, Seq<char>)>> {
    match r {
        Some(v) => Some(v@.map_values(|x: Region| (x.r, x.g, x.b, x.font, x.text@))),
        None => None,
    }
}

/// The theme diff code is highlighted in: `base16-ocean.dark`, one of syntect's
/// default themes.
pub open spec fn code_theme() -> Seq<char> {
    "base16-ocean.dark"@
}

pub open spec fn opt_regions_view(r: Option<Option<Vec<Region>>>) -> Option<Option<Seq<(u8, u8, u8, u8, Seq<char>)>>> {
    match r {
        Some(x) => Some(regions_view(x)),
        None => None,
    }
}

/// What syntect makes of one line of code in the default theme `theme`, with the
/// syntax `SyntaxSet::find_syntax_by_extension` finds for `ext`: `None` when no
/// syntax has that extension, `Some(None)` when syntect reports an error.
pub uninterp spec fn highlighted_for(theme: Seq<char>, ext: Seq<char>, code: Seq<char>) -> Option<Option<Seq<(u8, u8, u8, u8, Seq<char>)>>>;

/// What syntect makes of one line of code in the default theme `theme`, with its
/// plain-text syntax; `None` when syntect reports an error.
pub uninterp spec fn highlighted_plain(theme: Seq<char>, code: Seq<char>) -> Option<Seq<(u8, u8, u8, u8, Seq<char>)>>;

/// syntect's `HighlightLines::highlight_line` on one line of code, with the syntax
/// `SyntaxSet::find_syntax_by_extension` finds for `ext` in the default syntaxes and
/// the default theme `theme`. Its result depends on the theme, extension and code
/// alone.
#[verifier::external_body]
fn highlight_for_extension(h: &Highlighter, theme: &str, ext: &str, code: &str) -> (r: Option<Option<Vec<Region>>>)
    requires
        theme@ == code_theme(),
    ensures
        opt_regions_view(r) == highlighted_for(theme@, ext@, code@),
{
    let syntax = h.syntaxes.find_syntax_by_extension(ext)?;
    let mut lines = HighlightLines::new(syntax, &h.themes.themes[theme]);
    Some(lines.highlight_line(code, &h.syntaxes).ok().map(|rs| rs.into_iter().map(|(s, t)| Region {
        r: s.foreground.r, g: s.foreground.g, b: s.foreground.b, font: s.font_style.bits(), text: t.to_string(),
    }).collect()))
}

/// syntect's `HighlightLines::highlight_line` on one line of code, with the syntax
/// `SyntaxSet::find_syntax_plain_text` and the default theme `theme`. Its result
/// depends on the theme and code alone.
#[verifier::external_body]
fn highlight_plain_text(h: &Highlighter, theme: &str, code: &str) -> (r: Option<Vec<Region>>)
    requires
        theme@ == code_theme(),
    ensures
        regions_view(r) == highlighted_plain(theme@, code@),
{
    let mut lines = HighlightLines::new(h.syntaxes.find_syntax_plain_text(), &h.themes.themes[theme]);
    lines.highlight_line(code, &h.syntaxes).ok().map(|rs| rs.into_iter().map(|(s, t)| Region {
        r: s.foreground.r, g: s.foreground.g, b: s.foreground.b, font: s.font_style.bits(), text: t.to_string(),
    }).collect())
}

/// How a line of code is highlighted: with the syntax for its extension, else as
/// plain text, in the code theme.
pub open spec fn highlight_choice(ext: Seq<char>, code: Seq<char>) -> Option<Seq<(u8, u8, u8, u8, Seq<char>)>> {
    match highlighted_for(code_theme(), ext, code) {
        Some(r) => r,
        None => highlighted_plain(code_theme(), code),
    }
}

/// Highlights one line of code: with the syntax for `ext` when syntect has one,
/// else as plain text, in the code theme.
fn highlight_regions(h: &Highlighter, ext: &str, code: &str) -> (r: Option<Vec<Region>>)
    ensures
        regions_view(r) == highlight_choice(ext@, code@),
{
    match highlight_for_extension(h, "base16-ocean.dark", ext, code) {
        Some(r) => r,
        None => highlight_plain_text(h, "base16-ocean.dark", code),
    }
}

// ---------------------------------------------------------------------------
// Colours
// ---------------------------------------------------------------------------

pub open spec fn greener(c: Color) -> Color {
    match c {
        Color::Rgb(r, g, b) => Color::Rgb(
            (r * 7 / 10) as u8,
            (if g + 60 > 255 { 255 } else { g + 60 }) as u8,
            (b * 7 / 10) as u8,
        ),
        _ => Color::Green,
    }
}

pub open spec fn redder(c: Color) -> Color {
    match c {
        Color::Rgb(r, g, b) => Color::Rgb(
            (if r + 60 > 255 { 255 } else { r + 60 }) as u8,
            (g * 7 / 10) as u8,
            (b * 7 / 10) as u8,
        ),
        _ => Color::Red,
    }
}

/// A colour tinted toward green, for added lines.
pub fn tint_green(color: Color) -> (r: Color)
    ensures
        r == greener(color),
{
    match color {
        Color::Rgb(r, g, b) => {
            let r2 = (r as u16 * 7 / 10) as u8;
            let g2 = if (g as u16) + 60 > 255 { 255u8 } else { (g as u16 + 60) as u8 };
            let b2 = (b as u16 * 7 / 10) as u8;
            Color::Rgb(r2, g2, b2)
        },
        _ => Color::Green,
    }
}

/// A colour tinted toward red, for removed lines.
pub fn tint_red(color: Color) -> (r: Color)
    ensures
        r == redder(color),
{
    match color {
        Color::Rgb(r, g, b) => {
            let r2 = if (r as u16) + 60 > 255 { 255u8 } else { (r as u16 + 60) as u8 };
            let g2 = (g as u16 * 7 / 10) as u8;
            let b2 = (b as u16 * 7 / 10) as u8;
            Color::Rgb(r2, g2, b2)
        },
        _ => Color::Red,
    }
}

/// The style of a highlighted region: its colour, bold and italic from its bits.
pub open spec fn region_style(r: u8, g: u8, b: u8, font: u8) -> Style {
    Style {
        fg: Some(Color::Rgb(r, g, b)),
        bg: None,
        add: Modifiers { bold: font & 1 != 0, italic: font & 4 != 0, ..no_modifiers() },
    }
}

fn syntect_to_ratatui(r: u8, g: u8, b: u8, font: u8) -> (s: Style)
    ensures
        s == region_style(r, g, b, font),
{
    let mut s = Style::new().fg(Color::Rgb(r, g, b));
    if font & 1 != 0 {
        s = s.add_modifier(Modifiers::bold());
    }
    if font & 4 != 0 {
        s = s.add_modifier(Modifiers::italic());
    }
    s
}

// ---------------------------------------------------------------------------
// Diff lines
// ---------------------------------------------------------------------------

/// The part of a path after its last `.` (all of it when it has none).
pub open spec fn extension(p: Seq<char>) -> Seq<char>
    decreases p.len(),
{
    if p.len() == 0 {
        p
    } else if p.last() == '.' {
        Seq::empty()
    } else {
        extension(p.drop_last()).push(p.last())
    }
}

/// The style of a diff line's code where highlighting fails.
pub open spec fn fallback_style(prefix: char) -> Style {
    if prefix == '+' {
        fg_only(Color::Green)
    } else if prefix == '-' {
        fg_only(Color::Red)
    } else {
        dim_style()
    }
}

/// A highlighted region as it shows on an added, removed or context line.
pub open spec fn tinted(x: (u8, u8, u8, u8, Seq<char>), prefix: char) -> (Seq<char>, Style) {
    let s = region_style(x.0, x.1, x.2, x.3);
    (
        x.4,
        if prefix == '+' {
            with_fg(s, greener(Color::Rgb(x.0, x.1, x.2)))
        } else if prefix == '-' {
            with_fg(s, redder(Color::Rgb(x.0, x.1, x.2)))
        } else {
            with_mods(s, Modifiers { dim: true, ..no_modifiers() })
        },
    )
}

/// The spans of a diff line's code, highlighted for the file it belongs to.
pub open spec fn code_spans(code: Seq<char>, file: Option<Seq<char>>, prefix: char) -> Seq<(Seq<char>, Style)> {
    let ext = match file {
        Some(p) => extension(p),
        None => Seq::empty(),
    };
    match highlight_choice(ext, code) {
        Some(regions) => regions.map_values(|x: (u8, u8, u8, u8, Seq<char>)| tinted(x, prefix)),
        None => seq![(code, fallback_style(prefix))],
    }
}

fn extension_of(p: &str) -> (r: String)
    ensures
        r@ == extension(p@),
{
    let cs = crate::text::chars_of(p);
    let mut start: usize = cs.len();
    assert(cs@.take(start as int) =~= cs@);
    assert(cs@.skip(start as int) =~= Seq::<char>::empty());
    assert(extension(p@) =~= extension(cs@.take(start as int)) + cs@.skip(start as int));
    while start > 0 && cs[start - 1] != '.'
        invariant
            start <= cs@.len(),
            cs@ == p@,
            extension(p@) == extension(cs@.take(start as int)) + cs@.skip(start as int),
        decreases start,
    {
        proof {
            let t = cs@.take(start as int);
            assert(t.drop_last() =~= cs@.take(start - 1));
            assert(t.last() == cs@[start - 1]);
            assert(cs@.skip(start - 1) =~= seq![cs@[start - 1]] + cs@.skip(start as int));
            assert(extension(t) == extension(t.drop_last()).push(t.last()));
            assert(extension(t.drop_last()).push(t.last()) + cs@.skip(start as int) =~= extension(
                t.drop_last(),
            ) + cs@.skip(start - 1));
        }
        start = start - 1;
    }
    proof {
        let t = cs@.take(start as int);
        if start > 0 {
            assert(t.last() == '.');
        }
        assert(extension(t) =~= Seq::<char>::empty());
        assert(cs@.skip(start as int) =~= cs@.subrange(start as int, cs@.len() as int));
    }
    crate::text::string_of_range(cs.as_slice(), start, cs.len())
}

/// The code of a diff line in spans: syntect's regions tinted by the line's kind
/// (green for `+`, red for `-`, dim for context), or the whole code in the
/// kind's colour where syntect fails.
fn syntax_highlight(code: &str, current_file: &Option<String>, diff_prefix: char, hl: &Highlighter) -> (r: Vec<Span>)
    ensures
        spans_model(r@) == code_spans(code@, crate::run::opt_str(*current_file), diff_prefix),
{
    let ext = match current_file {
        Some(p) => extension_of(p.as_str()),
        None => String::new(),
    };
    let mut out: Vec<Span> = Vec::new();
    match highlight_regions(hl, ext.as_str(), code) {
        None => {
            let style = if diff_prefix == '+' {
                Style::new().fg(Color::Green)
            } else if diff_prefix == '-' {
                Style::new().fg(Color::Red)
            } else {
                Style::new().add_modifier(Modifiers::dim())
            };
            out.push(Span::styled(code.to_owned(), style));
            assert(spans_model(out@) =~= seq![(code@, fallback_style(diff_prefix))]);
        },
        Some(regions) => {
            let ghost rv = regions@.map_values(|x: Region| (x.r, x.g, x.b, x.font, x.text@));
            let mut i: usize = 0;
            while i < regions.len()
                invariant
                    i <= regions@.len(),
                    rv == regions@.map_values(|x: Region| (x.r, x.g, x.b, x.font, x.text@)),
                    spans_model(out@) == rv.take(i as int).map_values(
                        |x: (u8, u8, u8, u8, Seq<char>)| tinted(x, diff_prefix),
                    ),
                decreases regions.len() - i,
            {
                let x = &regions[i];
                let mut style = syntect_to_ratatui(x.r, x.g, x.b, x.font);
                if diff_prefix == '+' {
                    style = style.fg(tint_green(Color::Rgb(x.r, x.g, x.b)));
                } else if diff_prefix == '-' {
                    style = style.fg(tint_red(Color::Rgb(x.r, x.g, x.b)));
                } else {
                    style = style.add_modifier(Modifiers::dim());
                }
                let sp = Span::styled(x.text.clone(), style);
                let ghost m = sp.model();
                assert(m == tinted(rv[i as int], diff_prefix));
                let ghost before = out@;
                out.push(sp);
                assert(spans_model(out@) =~= spans_model(before).push(m));
                assert(rv.take(i + 1).map_values(|x: (u8, u8, u8, u8, Seq<char>)| tinted(x, diff_prefix))
                    =~= rv.take(i as int).map_values(
                    |x: (u8, u8, u8, u8, Seq<char>)| tinted(x, diff_prefix),
                ).push(m));
                i = i + 1;
            }
            assert(rv.take(regions.len() as int) =~= rv);
        },
    }
    out
}

pub open spec fn pad() -> Seq<char> {
    repeat_char(' ', 9)
}

pub open spec fn bar_then(line: Seq<char>) -> Seq<char> {
    seq!['│', ' '] + line
}

/// A `***` line of a patch.
pub open spec fn meta_line(line: Seq<char>) -> Seq<(Seq<char>, Style)> {
    seq![
        (pad(), plain()),
        (bar_then(line), Style { fg: Some(Color::Yellow), add: Modifiers { bold: true, ..no_modifiers() }, ..plain() }),
    ]
}

/// A `@@` line of a patch.
pub open spec fn hunk_line(line: Seq<char>) -> Seq<(Seq<char>, Style)> {
    seq![
        (pad(), plain()),
        (bar_then(line), Style { fg: Some(Color::Cyan), add: Modifiers { dim: true, ..no_modifiers() }, ..plain() }),
    ]
}

pub open spec fn is_diff_prefix(c: char) -> bool {
    c == '+' || c == '-' || c == ' '
}

/// An added, removed or context line, its code highlighted for `file`; any other
/// line dim as it is.
pub open spec fn diff_line_model(line: Seq<char>, file: Option<Seq<char>>) -> Seq<(Seq<char>, Style)> {
    if line.len() > 0 && is_diff_prefix(line[0]) {
        let p = line[0];
        seq![(pad(), plain()), (seq!['│', ' '], dim_style()), (seq![p], fallback_style(p))]
            + code_spans(line.drop_first(), file, p)
    } else {
        seq![(pad(), plain()), (bar_then(line), dim_style())]
    }
}

pub open spec fn starts_with(s: Seq<char>, p: Seq<char>) -> bool {
    p.len() <= s.len() && s.take(p.len() as int) == p
}

pub open spec fn update_marker() -> Seq<char> {
    seq!['*', '*', '*', ' ', 'U', 'p', 'd', 'a', 't', 'e', ' ', 'F', 'i', 'l', 'e', ':', ' ']
}

pub open spec fn meta_marker() -> Seq<char> {
    seq!['*', '*', '*', ' ']
}

pub open spec fn hunk_marker() -> Seq<char> {
    seq!['@', '@']
}

/// The lines of a patch so far, and the file the last `*** Update File:` named.
pub open spec fn patch_acc(ls: Seq<Seq<char>>) -> (Seq<Seq<(Seq<char>, Style)>>, Option<Seq<char>>)
    decreases ls.len(),
{
    if ls.len() == 0 {
        (Seq::empty(), None)
    } else {
        let prev = patch_acc(ls.drop_last());
        let line = ls.last();
        if starts_with(line, update_marker()) {
            (prev.0.push(meta_line(line)), Some(line.skip(17)))
        } else if starts_with(line, meta_marker()) {
            (prev.0.push(meta_line(line)), prev.1)
        } else if starts_with(line, hunk_marker()) {
            (prev.0.push(hunk_line(line)), prev.1)
        } else {
            (prev.0.push(diff_line_model(line, prev.1)), prev.1)
        }
    }
}

/// A patch on screen, a line for each of its lines.
pub open spec fn patch_lines(patch: Seq<char>) -> Seq<Seq<(Seq<char>, Style)>> {
    patch_acc(lines_of(patch)).0
}

pub(crate) fn pad_text() -> (r: String)
    ensures
        r@ == pad(),
{
    let mut s = String::new();
    let mut i: usize = 0;
    while i < 9
        invariant
            i <= 9,
            s@ == repeat_char(' ', i as nat),
        decreases 9 - i,
    {
        push_char(&mut s, ' ');
        assert(s@ =~= repeat_char(' ', (i + 1) as nat));
        i = i + 1;
    }
    s
}

pub(crate) fn bar_line(line: &str) -> (r: String)
    ensures
        r@ == bar_then(line@),
{
    let mut s = String::new();
    push_char(&mut s, '│');
    push_char(&mut s, ' ');
    append_str(&mut s, line);
    assert(s@ =~= bar_then(line@));
    s
}

pub(crate) fn two_spans(a: Span, b: Span) -> (r: StyledLine)
    ensures
        r.model() == seq![a.model(), b.model()],
{
    let ghost am = a.model();
    let ghost bm = b.model();
    let mut spans: Vec<Span> = Vec::new();
    spans.push(a);
    spans.push(b);
    assert(spans_model(spans@) =~= seq![am, bm]);
    StyledLine::from_spans(spans)
}

fn patch_meta_line(line: &str) -> (r: StyledLine)
    ensures
        r.model() == meta_line(line@),
{
    two_spans(
        Span::raw(pad_text()),
        Span::styled(bar_line(line), Style::new().fg(Color::Yellow).add_modifier(Modifiers::bold())),
    )
}

fn hunk_header_line(line: &str) -> (r: StyledLine)
    ensures
        r.model() == hunk_line(line@),
{
    two_spans(
        Span::raw(pad_text()),
        Span::styled(bar_line(line), Style::new().fg(Color::Cyan).add_modifier(Modifiers::dim())),
    )
}

/// An added (`+`), removed (`-`) or context (` `) line of a diff, its code
/// highlighted for the file; any other line dim as it is.
fn diff_line(line: &str, current_file: &Option<String>, _content_cols: usize, hl: &Highlighter) -> (r: StyledLine)
    ensures
        r.model() == diff_line_model(line@, crate::run::opt_str(*current_file)),
{
    let cs = crate::text::chars_of(line);
    if cs.len() == 0 || !(cs[0] == '+' || cs[0] == '-' || cs[0] == ' ') {
        return two_spans(Span::raw(pad_text()), Span::styled(bar_line(line), Style::new().add_modifier(Modifiers::dim())));
    }
    let p = cs[0];
    let prefix_style = if p == '+' {
        Style::new().fg(Color::Green)
    } else if p == '-' {
        Style::new().fg(Color::Red)
    } else {
        Style::new().add_modifier(Modifiers::dim())
    };
    let code = crate::text::string_of_range(cs.as_slice(), 1, cs.len());
    assert(code@ =~= line@.drop_first());
    let code_spans_v = syntax_highlight(code.as_str(), current_file, p, hl);
    let ghost cm = spans_model(code_spans_v@);
    let mut spans: Vec<Span> = Vec::new();
    let a = Span::raw(pad_text());
    let b = Span::styled(bar_text2(), Style::new().add_modifier(Modifiers::dim()));
    let c = Span::styled(string_of_char(p), prefix_style);
    let ghost head = seq![a.model(), b.model(), c.model()];
    spans.push(a);
    spans.push(b);
    spans.push(c);
    assert(spans_model(spans@) =~= head);
    let mut i: usize = 0;
    while i < code_spans_v.len()
        invariant
            i <= code_spans_v@.len(),
            cm == spans_model(code_spans_v@),
            spans_model(spans@) == head + cm.take(i as int),
        decreases code_spans_v.len() - i,
    {
        let sp = Span::styled(code_spans_v[i].text.clone(), code_spans_v[i].style);
        let ghost m = sp.model();
        let ghost before = spans@;
        spans.push(sp);
        assert(spans_model(spans@) =~= spans_model(before).push(m));
        assert(cm.take(i + 1) =~= cm.take(i as int).push(m));
        i = i + 1;
    }
    assert(cm.take(code_spans_v.len() as int) =~= cm);
    StyledLine::from_spans(spans)
}

fn bar_text2() -> (r: String)
    ensures
        r@ == seq!['│', ' '],
{
    let mut s = String::new();
    push_char(&mut s, '│');
    push_char(&mut s, ' ');
    assert(s@ =~= seq!['│', ' ']);
    s
}

fn has_prefix(cs: &Vec<char>, p: &Vec<char>) -> (r: bool)
    ensures
        r == starts_with(cs@, p@),
{
    if p.len() > cs.len() {
        return false;
    }
    let r = crate::text::matches_at(cs, p, 0);
    assert(cs@.subrange(0, p@.len() as int) =~= cs@.take(p@.len() as int));
    r
}

fn marker_chars(text: &str) -> (r: Vec<char>)
    ensures
        r@ == text@,
{
    crate::text::chars_of(text)
}

/// A patch (in the `*** Update File:` / `@@` / `+`/`-`/` ` form) as coloured lines,
/// the code of each diff line highlighted for the file last named.
pub fn render_patch(patch: &str, content_cols: usize, hl: &Highlighter) -> (r: Vec<StyledLine>)
    ensures
        lines_model(r@) == patch_lines(patch@),
{
    let update = marker_chars("*** Update File: ");
    let meta = marker_chars("*** ");
    let hunk = marker_chars("@@");
    proof {
        reveal_strlit("*** Update File: ");
        reveal_strlit("*** ");
        reveal_strlit("@@");
        assert(update@ =~= update_marker());
        assert(meta@ =~= meta_marker());
        assert(hunk@ =~= hunk_marker());
    }
    let source = split_lines(patch);
    let ghost ls = source@.map_values(|l: String| l@);
    let mut lines: Vec<StyledLine> = Vec::new();
    let mut current_file: Option<String> = None;
    let mut i: usize = 0;
    assert(ls.take(0) =~= Seq::<Seq<char>>::empty());
    assert(lines_model(lines@) =~= Seq::<Seq<(Seq<char>, Style)>>::empty());
    while i < source.len()
        invariant
            i <= source@.len(),
            ls == source@.map_values(|l: String| l@),
            update@ == update_marker(),
            meta@ == meta_marker(),
            hunk@ == hunk_marker(),
            (lines_model(lines@), crate::run::opt_str(current_file)) == patch_acc(ls.take(i as int)),
        decreases source.len() - i,
    {
        let line = &source[i];
        let cs = crate::text::chars_of(line.as_str());
        let l = if has_prefix(&cs, &update) {
            let l = patch_meta_line(line.as_str());
            current_file = Some(crate::text::string_of_range(cs.as_slice(), 17, cs.len()));
            assert(cs@.subrange(17, cs@.len() as int) =~= line@.skip(17));
            l
        } else if has_prefix(&cs, &meta) {
            patch_meta_line(line.as_str())
        } else if has_prefix(&cs, &hunk) {
            hunk_header_line(line.as_str())
        } else {
            diff_line(line.as_str(), &current_file, content_cols, hl)
        };
        let ghost m = l.model();
        let ghost before = lines@;
        lines.push(l);
        proof {
            assert(lines_model(lines@) =~= lines_model(before).push(m));
            assert(ls.take(i + 1).drop_last() =~= ls.take(i as int));
            assert(ls.take(i + 1).last() == line@);
        }
        i = i + 1;
    }
    assert(ls.take(source.len() as int) =~= ls);
    lines
}

/// Lines of `text`, each after `c` and followed by a line break.
pub open spec fn marked_lines(ls: Seq<Seq<char>>, c: char) -> Seq<char>
    decreases ls.len(),
{
    if ls.len() == 0 {
        Seq::empty()
    } else {
        marked_lines(ls.drop_last(), c) + seq![c] + ls.last() + seq!['\n']
    }
}

/// An `Edit` tool input as a patch: the file named, the old text removed, the new
/// text added.
pub open spec fn edit_patch(input: Json) -> Seq<char> {
    update_marker() + or_default(str_field(input, "file_path"@), Seq::empty()) + seq!['\n', '@', '@', '\n']
        + marked_lines(lines_of(or_default(str_field(input, "old_string"@), Seq::empty())), '-')
        + marked_lines(lines_of(or_default(str_field(input, "new_string"@), Seq::empty())), '+')
}

fn push_marked_lines(out: &mut String, text: &str, c: char)
    ensures
        final(out)@ == old(out)@ + marked_lines(lines_of(text@), c),
{
    let ls = split_lines(text);
    let ghost lm = ls@.map_values(|l: String| l@);
    let mut i: usize = 0;
    assert(lm.take(0) =~= Seq::<Seq<char>>::empty());
    assert(out@ =~= old(out)@ + marked_lines(lm.take(0), c));
    while i < ls.len()
        invariant
            i <= ls@.len(),
            lm == ls@.map_values(|l: String| l@),
            out@ == old(out)@ + marked_lines(lm.take(i as int), c),
        decreases ls.len() - i,
    {
        push_char(out, c);
        append_str(out, ls[i].as_str());
        push_char(out, '\n');
        proof {
            assert(lm.take(i + 1).drop_last() =~= lm.take(i as int));
            assert(lm.take(i + 1).last() == ls@[i as int]@);
            assert(out@ =~= old(out)@ + marked_lines(lm.take(i + 1), c));
        }
        i = i + 1;
    }
    assert(lm.take(ls.len() as int) =~= lm);
}

/// An `Edit` tool input (`file_path`, `old_string`, `new_string`) as a highlighted
/// patch.
pub fn render_edit(input: &JsonValue, content_cols: usize, hl: &Highlighter) -> (r: Vec<StyledLine>)
    ensures
        lines_model(r@) == patch_lines(edit_patch(input.model())),
{
    let file_path = input.str_or("file_path", "");
    let old = input.str_or("old_string", "");
    let new = input.str_or("new_string", "");
    proof {
        reveal_strlit("");
    }
    let mut patch = String::new();
    append_str(&mut patch, "*** Update File: ");
    proof {
        reveal_strlit("*** Update File: ");
    }
    append_str(&mut patch, file_path.as_str());
    push_char(&mut patch, '\n');
    push_char(&mut patch, '@');
    push_char(&mut patch, '@');
    push_char(&mut patch, '\n');
    push_marked_lines(&mut patch, old.as_str(), '-');
    push_marked_lines(&mut patch, new.as_str(), '+');
    assert(patch@ =~= edit_patch(input.model()));
    render_patch(patch.as_str(), content_cols, hl)
}

proof fn lemma_patch_acc_len(ls: Seq<Seq<char>>)
    ensures
        patch_acc(ls).0.len() == ls.len(),
    decreases ls.len(),
{
    if ls.len() > 0 {
        lemma_patch_acc_len(ls.drop_last());
    }
}

/// A patch shows as exactly one screen line per line of it.
pub proof fn law_patch_line_per_line(patch: Seq<char>)
    ensures
        patch_lines(patch).len() == lines_of(patch).len(),
{
    lemma_patch_acc_len(lines_of(patch));
}

/// The lines after `*** Update File: <path>` are highlighted for that path, until
/// another such line.
pub proof fn law_update_names_the_file(before: Seq<Seq<char>>, path: Seq<char>)
    ensures
        patch_acc(before.push(update_marker() + path)).1 == Some(path),
{
    let line = update_marker() + path;
    assert(line.take(17) =~= update_marker());
    assert(line.skip(17) =~= path);
    assert(before.push(line).drop_last() =~= before);
}

} // verus!
