use vstd::prelude::*;

verus! {

/// A terminal color: a named one or an RGB triple.
#[derive(Clone, Copy, PartialEq, Eq, Structural, Debug)]
pub enum Color {
    Reset,
    Black,
    Red,
    Green,
    Yellow,
    Magenta,
    Cyan,
    Gray,
    DarkGray,
    White,
    Rgb(u8, u8, u8),
}

/// A text style: colors and modifiers.
#[derive(Clone, Copy, PartialEq, Eq, Structural, Debug)]
pub struct Style {
    pub fg: Option<Color>,
    pub bg: Option<Color>,
    pub bold: bool,
    pub italic: bool,
    pub dim: bool,
}

/// The style that changes nothing.
pub open spec fn plain() -> Style {
    Style { fg: None, bg: None, bold: false, italic: false, dim: false }
}

/// The style that changes nothing.
pub fn default_style() -> (s: Style)
    ensures
        s == plain(),
{
    Style { fg: None, bg: None, bold: false, italic: false, dim: false }
}

/// A style with only a foreground color.
pub fn fg(c: Color) -> (s: Style)
    ensures
        s == (Style { fg: Some(c), ..plain() }),
{
    Style { fg: Some(c), bg: None, bold: false, italic: false, dim: false }
}

pub fn surface() -> (c: Color)
    ensures
        c == Color::Rgb(30, 30, 42),
{
    Color::Rgb(30, 30, 42)
}

pub fn text() -> (c: Color)
    ensures
        c == Color::Rgb(220, 220, 235),
{
    Color::Rgb(220, 220, 235)
}

pub fn text_dim() -> (c: Color)
    ensures
        c == Color::Rgb(140, 140, 158),
{
    Color::Rgb(140, 140, 158)
}

pub fn border_unfocused() -> (c: Color)
    ensures
        c == Color::Rgb(65, 65, 78),
{
    Color::Rgb(65, 65, 78)
}

pub fn green() -> (c: Color)
    ensures
        c == Color::Rgb(80, 210, 120),
{
    Color::Rgb(80, 210, 120)
}

pub fn red() -> (c: Color)
    ensures
        c == Color::Rgb(240, 85, 85),
{
    Color::Rgb(240, 85, 85)
}

pub fn yellow() -> (c: Color)
    ensures
        c == Color::Rgb(245, 210, 80),
{
    Color::Rgb(245, 210, 80)
}

pub fn selection_bg() -> (c: Color)
    ensures
        c == Color::Rgb(55, 55, 75),
{
    Color::Rgb(55, 55, 75)
}

pub fn diff_header() -> (c: Color)
    ensures
        c == Color::Rgb(90, 90, 180),
{
    Color::Rgb(90, 90, 180)
}

/// The border of the focused panel: cyan.
pub fn focused_border() -> (s: Style)
    ensures
        s == (Style { fg: Some(Color::Cyan), ..plain() }),
{
    fg(Color::Cyan)
}

/// The border of a panel without focus.
pub fn unfocused_border() -> (s: Style)
    ensures
        s == (Style { fg: Some(Color::Rgb(65, 65, 78)), ..plain() }),
{
    fg(border_unfocused())
}

/// The highlight of a selected list item.
pub fn selected_item() -> (s: Style)
    ensures
        s == (Style {
            fg: Some(Color::Rgb(220, 220, 235)),
            bg: Some(Color::Rgb(55, 55, 75)),
            bold: true,
            ..plain()
        }),
{
    Style { fg: Some(text()), bg: Some(selection_bg()), bold: true, italic: false, dim: false }
}

} // verus!
