//! Styled text for a terminal: colours, styles, spans and lines.

use vstd::prelude::*;

verus! {

/// A colour of a terminal cell
#[derive(Debug, Clone, Copy, PartialEq, Eq, Structural)]
pub enum Color {
    Reset,
    Black,
    Red,
    Green,
    Yellow,
    Blue,
    Magenta,
    Cyan,
    Gray,
    DarkGray,
    LightRed,
    LightGreen,
    LightYellow,
    LightBlue,
    LightMagenta,
    LightCyan,
    White,
    Rgb(u8, u8, u8),
    Indexed(u8),
}

/// How text is shown: its colours, and the text modifiers (bold, italic and so on) that it
/// adds to and removes from what lies under it, as sets of bits
#[derive(Debug, Clone, Copy, PartialEq, Eq)]
pub struct Style {
    pub fg: Option<Color>,
    pub bg: Option<Color>,
    pub underline_color: Option<Color>,
    pub add_modifier: u16,
    pub sub_modifier: u16,
}

/// The style that changes nothing.
pub open spec fn plain_style() -> Style {
    Style { fg: None, bg: None, underline_color: None, add_modifier: 0, sub_modifier: 0 }
}

/// The style with a foreground and a background colour.
pub open spec fn colored(fg: Color, bg: Color) -> Style {
    Style { fg: Some(fg), bg: Some(bg), ..plain_style() }
}

/// The style with a foreground colour.
pub open spec fn foreground(fg: Color) -> Style {
    Style { fg: Some(fg), ..plain_style() }
}

impl Default for Style {
    fn default() -> (res: Self)
        ensures
            res == plain_style(),
    {
        Style { fg: None, bg: None, underline_color: None, add_modifier: 0, sub_modifier: 0 }
    }
}

impl Style {
    /// The same style with the given foreground colour.
    pub fn fg(self, color: Color) -> (res: Self)
        ensures
            res == (Style { fg: Some(color), ..self }),
    {
        Style { fg: Some(color), ..self }
    }

    /// The same style with the given background colour.
    pub fn bg(self, color: Color) -> (res: Self)
        ensures
            res == (Style { bg: Some(color), ..self }),
    {
        Style { bg: Some(color), ..self }
    }
}

/// Where a line stands between the edges of its area
#[derive(Debug, Clone, Copy, PartialEq, Eq, Structural)]
pub enum Alignment {
    Left,
    Center,
    Right,
}

/// A piece of text in one style
#[derive(Debug, Clone, PartialEq, Eq)]
pub struct Span {
    pub content: String,
    pub style: Style,
}

/// A line of text, made of spans
#[derive(Debug, Clone, PartialEq, Eq)]
pub struct Line {
    pub spans: Vec<Span>,
    pub style: Style,
    pub alignment: Option<Alignment>,
}

/// What a span holds.
pub struct SpanView {
    pub content: Seq<char>,
    pub style: Style,
}

/// What a line holds.
pub struct LineView {
    pub spans: Seq<SpanView>,
    pub style: Style,
    pub alignment: Option<Alignment>,
}

impl View for Span {
    type V = SpanView;

    open spec fn view(&self) -> SpanView {
        SpanView { content: self.content@, style: self.style }
    }
}

impl View for Line {
    type V = LineView;

    open spec fn view(&self) -> LineView {
        LineView {
            spans: Seq::new(self.spans@.len(), |i: int| self.spans@[i]@),
            style: self.style,
            alignment: self.alignment,
        }
    }
}

/// What a sequence of lines holds.
pub open spec fn line_views(lines: Seq<Line>) -> Seq<LineView> {
    Seq::new(lines.len(), |i: int| lines[i]@)
}

/// A line of spans with nothing set for the line as a whole.
pub open spec fn line_of(spans: Seq<SpanView>) -> LineView {
    LineView { spans, style: plain_style(), alignment: None }
}

impl Span {
    /// A span of text in a style.
    pub fn styled(content: String, style: Style) -> (res: Self)
        ensures
            res.content == content,
            res.style == style,
    {
        Span { content, style }
    }
}

impl Line {
    /// A line of spans with nothing set for the line as a whole.
    pub fn of(spans: Vec<Span>) -> (res: Self)
        ensures
            res.spans == spans,
            res.style == plain_style(),
            res.alignment is None,
    {
        Line { spans, style: Style::default(), alignment: None }
    }
}

/// A style of colours sets these colours and nothing else, and a line of spans sets nothing for
/// the line as a whole.
pub proof fn law_styles_set_colours_only(fg: Color, bg: Color, spans: Seq<SpanView>)
    ensures
        line_of(spans).spans == spans,
        line_of(spans).style == plain_style(),
        line_of(spans).alignment is None,
        plain_style().fg is None && plain_style().bg is None,
        foreground(fg).fg == Some(fg) && foreground(fg).bg is None,
        colored(fg, bg).fg == Some(fg) && colored(fg, bg).bg == Some(bg),
        plain_style().underline_color is None && foreground(fg).underline_color is None && colored(
            fg,
            bg,
        ).underline_color is None,
        plain_style().add_modifier == 0 && foreground(fg).add_modifier == 0 && colored(
            fg,
            bg,
        ).add_modifier == 0,
        plain_style().sub_modifier == 0 && foreground(fg).sub_modifier == 0 && colored(
            fg,
            bg,
        ).sub_modifier == 0,
{
}

/// The view of lines holds all that the lines hold: each line in order, its spans in order with
/// their text and style, and what is set for the line as a whole.
pub proof fn law_line_views_hold_everything(lines: Seq<Line>, i: int, j: int)
    requires
        0 <= i < lines.len(),
    ensures
        line_views(lines).len() == lines.len(),
        line_views(lines)[i].style == lines[i].style,
        line_views(lines)[i].alignment == lines[i].alignment,
        line_views(lines)[i].spans.len() == lines[i].spans@.len(),
        0 <= j < lines[i].spans@.len() ==> line_views(lines)[i].spans[j].content
            == lines[i].spans@[j].content@ && line_views(lines)[i].spans[j].style
            == lines[i].spans@[j].style,
{
}

} // verus!
