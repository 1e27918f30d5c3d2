//! Styled text and keys, as plain values that any terminal can take and give.

use vstd::prelude::*;

verus! {

#[derive(Debug, Clone, Copy, PartialEq, Eq, Structural)]
pub enum Color {
    Reset,
    Black,
    Red,
    Green,
    Yellow,
    Blue,
    Magenta,
    Cyan,
    Gray,
    DarkGray,
    LightRed,
    White,
}

#[derive(Debug, Clone, Copy, PartialEq, Eq, Structural)]
pub struct Style {
    pub fg: Option<Color>,
    pub bg: Option<Color>,
    pub bold: bool,
    pub dim: bool,
    pub italic: bool,
    pub reversed: bool,
}

/// No style.
pub open spec fn plain_style() -> Style {
    Style { fg: None, bg: None, bold: false, dim: false, italic: false, reversed: false }
}

/// Text in a colour.
pub open spec fn fg_style(c: Color) -> Style {
    Style { fg: Some(c), ..plain_style() }
}

/// Bold text in a colour.
pub open spec fn bold_fg(c: Color) -> Style {
    Style { bold: true, ..fg_style(c) }
}

/// Text in one colour on another.
pub open spec fn on_style(fg: Color, bg: Color) -> Style {
    Style { fg: Some(fg), bg: Some(bg), ..plain_style() }
}

impl Style {
    pub fn plain() -> (r: Style)
        ensures
            r == plain_style(),
    {
        Style { fg: None, bg: None, bold: false, dim: false, italic: false, reversed: false }
    }

    pub fn fg(c: Color) -> (r: Style)
        ensures
            r == fg_style(c),
    {
        Style { fg: Some(c), bg: None, bold: false, dim: false, italic: false, reversed: false }
    }

    pub fn bold(c: Color) -> (r: Style)
        ensures
            r == bold_fg(c),
    {
        Style { fg: Some(c), bg: None, bold: true, dim: false, italic: false, reversed: false }
    }

    pub fn on(fg: Color, bg: Color) -> (r: Style)
        ensures
            r == on_style(fg, bg),
    {
        Style { fg: Some(fg), bg: Some(bg), bold: false, dim: false, italic: false, reversed: false }
    }
}

/// A stretch of text in one style.
#[derive(Debug, PartialEq)]
pub struct Span {
    pub text: String,
    pub style: Style,
}

#[verifier::ext_equal]
pub struct SpanV {
    pub text: Seq<char>,
    pub style: Style,
}

impl DeepView for Span {
    type V = SpanV;

    open spec fn deep_view(&self) -> SpanV {
        SpanV { text: self.text@, style: self.style }
    }
}

/// A stretch of text in one style.
pub open spec fn span(text: Seq<char>, style: Style) -> SpanV {
    SpanV { text, style }
}

/// One row of styled text.
pub open spec fn row(text: Seq<char>, style: Style) -> Seq<SpanV> {
    seq![SpanV { text, style }]
}

/// The text of a row, without its styles.
pub open spec fn row_text(spans: Seq<SpanV>) -> Seq<char>
    decreases spans.len(),
{
    if spans.len() == 0 {
        Seq::empty()
    } else {
        row_text(spans.drop_last()) + spans.last().text
    }
}

/// One more span adds its text.
pub proof fn lemma_row_text_push(spans: Seq<SpanV>, s: SpanV)
    ensures
        row_text(spans.push(s)) == row_text(spans) + s.text,
{
    assert(spans.push(s).drop_last() =~= spans);
}

/// One row of one style.
pub fn row_of(text: &str, style: Style) -> (r: Vec<Span>)
    ensures
        r.deep_view() == row(text@, style),
{
    let mut v: Vec<Span> = Vec::new();
    v.push(Span { text: text.to_owned(), style });
    assert(v.deep_view() =~= row(text@, style));
    v
}

/// A key of the keyboard.
#[derive(Debug, Clone, Copy, PartialEq, Eq, Structural)]
pub enum Key {
    Char(char),
    F(u8),
    Enter,
    Esc,
    Backspace,
    Delete,
    Left,
    Right,
    Up,
    Down,
    Home,
    End,
    PageUp,
    PageDown,
    Tab,
    BackTab,
    Other,
}

/// The modifiers that are held while a key is pressed.
#[derive(Debug, Clone, Copy, PartialEq, Eq, Structural)]
pub struct Mods {
    pub ctrl: bool,
    pub alt: bool,
    pub shift: bool,
    /// Any other modifier.
    pub other: bool,
}

/// No modifier is held.
pub open spec fn no_mods() -> Mods {
    Mods { ctrl: false, alt: false, shift: false, other: false }
}

impl Mods {
    pub fn none() -> (r: Mods)
        ensures
            r == no_mods(),
    {
        Mods { ctrl: false, alt: false, shift: false, other: false }
    }

    /// No modifier but the control key is held.
    pub fn only_ctrl(self) -> (r: bool)
        ensures
            r == (self == Mods { ctrl: true, ..no_mods() }),
    {
        self.ctrl && !self.alt && !self.shift && !self.other
    }

    /// No modifier but the alt key is held.
    pub fn only_alt(self) -> (r: bool)
        ensures
            r == (self == Mods { alt: true, ..no_mods() }),
    {
        self.alt && !self.ctrl && !self.shift && !self.other
    }

    /// No modifier but the shift key is held, if any.
    pub fn at_most_shift(self) -> (r: bool)
        ensures
            r == (self == no_mods() || self == Mods { shift: true, ..no_mods() }),
    {
        !self.ctrl && !self.alt && !self.other
    }
}

/// A rectangle of the screen.
#[derive(Debug, Clone, Copy, PartialEq, Eq, Structural)]
pub struct Rect {
    pub x: u16,
    pub y: u16,
    pub width: u16,
    pub height: u16,
}

/// A cell lies in a rectangle.
pub open spec fn inside(r: Rect, column: u16, row: u16) -> bool {
    r.x <= column < r.x + r.width && r.y <= row < r.y + r.height
}

impl Rect {
    pub fn empty() -> (r: Rect)
        ensures
            r == (Rect { x: 0, y: 0, width: 0, height: 0 }),
    {
        Rect { x: 0, y: 0, width: 0, height: 0 }
    }

    pub fn contains(&self, column: u16, row: u16) -> (r: bool)
        ensures
            r == inside(*self, column, row),
    {
        self.x <= column && column - self.x < self.width && self.y <= row && row - self.y < self.height
    }
}

} // verus!
