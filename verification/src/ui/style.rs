//! Colours, text attributes and styled text, as the terminal shows them.
use vstd::prelude::*;

verus! {

#[derive(Clone, Copy, Debug, PartialEq, Eq, Structural)]
pub enum Color {
    Black,
    Red,
    Green,
    Yellow,
    Blue,
    Magenta,
    Cyan,
    DarkGray,
    White,
    Rgb(u8, u8, u8),
}

/// Text attributes that a style turns on.
#[derive(Clone, Copy, Debug, PartialEq, Eq, Structural)]
pub struct Modifiers {
    pub bold: bool,
    pub dim: bool,
    pub italic: bool,
    pub underlined: bool,
    pub reversed: bool,
}

/// A foreground, a background (either may be left to what lies beneath) and the
/// attributes turned on.
#[derive(Clone, Copy, Debug, PartialEq, Eq, Structural)]
pub struct Style {
    pub fg: Option<Color>,
    pub bg: Option<Color>,
    pub add: Modifiers,
}

pub open spec fn no_modifiers() -> Modifiers {
    Modifiers { bold: false, dim: false, italic: false, underlined: false, reversed: false }
}

pub open spec fn plain() -> Style {
    Style { fg: None, bg: None, add: no_modifiers() }
}

/// A style that sets the foreground only.
pub open spec fn fg_only(c: Color) -> Style {
    Style { fg: Some(c), ..plain() }
}

pub open spec fn union(a: Modifiers, b: Modifiers) -> Modifiers {
    Modifiers {
        bold: a.bold || b.bold,
        dim: a.dim || b.dim,
        italic: a.italic || b.italic,
        underlined: a.underlined || b.underlined,
        reversed: a.reversed || b.reversed,
    }
}

pub open spec fn with_fg(s: Style, c: Color) -> Style {
    Style { fg: Some(c), ..s }
}

pub open spec fn with_bg(s: Style, c: Color) -> Style {
    Style { bg: Some(c), ..s }
}

pub open spec fn with_mods(s: Style, m: Modifiers) -> Style {
    Style { add: union(s.add, m), ..s }
}

/// `top` laid over `base`: its colours where it sets them, and the attributes of both.
pub open spec fn layered(base: Style, top: Style) -> Style {
    Style {
        fg: if top.fg is Some { top.fg } else { base.fg },
        bg: if top.bg is Some { top.bg } else { base.bg },
        add: union(base.add, top.add),
    }
}

impl Modifiers {
    pub fn none() -> (r: Modifiers)
        ensures
            r == no_modifiers(),
    {
        Modifiers { bold: false, dim: false, italic: false, underlined: false, reversed: false }
    }

    pub fn bold() -> (r: Modifiers)
        ensures
            r == (Modifiers { bold: true, ..no_modifiers() }),
    {
        Modifiers { bold: true, ..Modifiers::none() }
    }

    pub fn dim() -> (r: Modifiers)
        ensures
            r == (Modifiers { dim: true, ..no_modifiers() }),
    {
        Modifiers { dim: true, ..Modifiers::none() }
    }

    pub fn italic() -> (r: Modifiers)
        ensures
            r == (Modifiers { italic: true, ..no_modifiers() }),
    {
        Modifiers { italic: true, ..Modifiers::none() }
    }

    pub fn underlined() -> (r: Modifiers)
        ensures
            r == (Modifiers { underlined: true, ..no_modifiers() }),
    {
        Modifiers { underlined: true, ..Modifiers::none() }
    }

    pub fn reversed() -> (r: Modifiers)
        ensures
            r == (Modifiers { reversed: true, ..no_modifiers() }),
    {
        Modifiers { reversed: true, ..Modifiers::none() }
    }
}

impl Style {
    /// No colours and no attributes.
    pub fn new() -> (r: Style)
        ensures
            r == plain(),
    {
        Style { fg: None, bg: None, add: Modifiers::none() }
    }

    pub fn fg(self, c: Color) -> (r: Style)
        ensures
            r == with_fg(self, c),
    {
        Style { fg: Some(c), ..self }
    }

    pub fn bg(self, c: Color) -> (r: Style)
        ensures
            r == with_bg(self, c),
    {
        Style { bg: Some(c), ..self }
    }

    pub fn add_modifier(self, m: Modifiers) -> (r: Style)
        ensures
            r == with_mods(self, m),
    {
        Style {
            add: Modifiers {
                bold: self.add.bold || m.bold,
                dim: self.add.dim || m.dim,
                italic: self.add.italic || m.italic,
                underlined: self.add.underlined || m.underlined,
                reversed: self.add.reversed || m.reversed,
            },
            ..self
        }
    }

    /// `top` laid over this style.
    pub fn patch(self, top: Style) -> (r: Style)
        ensures
            r == layered(self, top),
    {
        let fg = match top.fg {
            Some(c) => Some(c),
            None => self.fg,
        };
        let bg = match top.bg {
            Some(c) => Some(c),
            None => self.bg,
        };
        Style { fg, bg, add: Style::new().add_modifier(self.add).add_modifier(top.add).add }
    }
}

impl Default for Style {
    fn default() -> (r: Style)
        ensures
            r == plain(),
    {
        Style::new()
    }
}

/// A piece of text in one style.
pub struct Span {
    pub text: String,
    pub style: Style,
}

/// One screen line: spans side by side.
pub struct StyledLine {
    pub spans: Vec<Span>,
}

pub open spec fn spans_text(spans: Seq<Span>) -> Seq<char>
    decreases spans.len(),
{
    if spans.len() == 0 {
        Seq::empty()
    } else {
        spans_text(spans.drop_last()) + spans.last().text@
    }
}

impl Span {
    pub open spec fn model(&self) -> (Seq<char>, Style) {
        (self.text@, self.style)
    }

    pub fn styled(text: String, style: Style) -> (r: Span)
        ensures
            r.text@ == text@,
            r.style == style,
    {
        Span { text, style }
    }

    /// Text with no style of its own.
    pub fn raw(text: String) -> (r: Span)
        ensures
            r.text@ == text@,
            r.style == plain(),
    {
        Span { text, style: Style::new() }
    }
}

pub open spec fn spans_model(spans: Seq<Span>) -> Seq<(Seq<char>, Style)> {
    spans.map_values(|s: Span| s.model())
}

pub open spec fn lines_model(lines: Seq<StyledLine>) -> Seq<Seq<(Seq<char>, Style)>> {
    lines.map_values(|l: StyledLine| l.model())
}

impl StyledLine {
    pub open spec fn model(&self) -> Seq<(Seq<char>, Style)> {
        spans_model(self.spans@)
    }

    /// A line with nothing on it.
    pub fn empty() -> (r: StyledLine)
        ensures
            r.model() == Seq::<(Seq<char>, Style)>::empty(),
    {
        StyledLine { spans: Vec::new() }
    }

    pub fn from_spans(spans: Vec<Span>) -> (r: StyledLine)
        ensures
            r.spans@ == spans@,
    {
        StyledLine { spans }
    }

    /// The text of the line, its spans one after another.
    pub fn to_text(&self) -> (r: String)
        ensures
            r@ == spans_text(self.spans@),
    {
        let mut out = String::new();
        let mut i: usize = 0;
        while i < self.spans.len()
            invariant
                i <= self.spans.len(),
                out@ == spans_text(self.spans@.subrange(0, i as int)),
            decreases self.spans.len() - i,
        {
            crate::json::append_str(&mut out, self.spans[i].text.as_str());
            proof {
                assert(self.spans@.subrange(0, i + 1).drop_last() == self.spans@.subrange(0, i as int));
            }
            i += 1;
        }
        proof {
            assert(self.spans@.subrange(0, self.spans.len() as int) == self.spans@);
        }
        out
    }
}

} // verus!
