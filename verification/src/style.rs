//! Colours and text styles.

use vstd::prelude::*;

verus! {

/// A colour of the terminal.
#[derive(Clone, Copy, PartialEq, Eq, Debug, Structural)]
pub enum Color {
    Cyan,
    Yellow,
    LightRed,
    Green,
    DarkGray,
    Red,
    White,
    Magenta,
    Rgb(u8, u8, u8),
}

pub const C_ACCENT: Color = Color::Cyan;

pub const C_WARN: Color = Color::Yellow;

pub const C_DANGER: Color = Color::LightRed;

pub const C_SUCCESS: Color = Color::Green;

pub const C_MUTED: Color = Color::DarkGray;

pub const C_MARK: Color = Color::Red;

pub const C_WHITE: Color = Color::White;

pub const C_ORPHAN: Color = Color::Magenta;

/// The background of the selected row.
#[verifier::allow_in_spec]
pub fn c_sel_bg() -> Color
    returns
        Color::Rgb(28, 50, 72),
{
    Color::Rgb(28, 50, 72)
}

/// The background of the status bar.
#[verifier::allow_in_spec]
pub fn c_bar_bg() -> Color
    returns
        Color::Rgb(15, 15, 22),
{
    Color::Rgb(15, 15, 22)
}

/// The background of a dialog.
#[verifier::allow_in_spec]
pub fn c_mod_bg() -> Color
    returns
        Color::Rgb(10, 10, 18),
{
    Color::Rgb(10, 10, 18)
}

/// The background of the progress bar.
#[verifier::allow_in_spec]
pub fn c_gauge_bg() -> Color
    returns
        Color::Rgb(30, 30, 30),
{
    Color::Rgb(30, 30, 30)
}

/// How a piece of text looks.
#[derive(Clone, Copy, PartialEq, Eq, Debug, Structural)]
pub struct Style {
    pub fg: Option<Color>,
    pub bg: Option<Color>,
    pub bold: bool,
    pub underlined: bool,
}

impl Style {
    /// The style of the surroundings.
    #[verifier::allow_in_spec]
    pub fn plain() -> Style
        returns
            (Style { fg: None, bg: None, bold: false, underlined: false }),
    {
        Style { fg: None, bg: None, bold: false, underlined: false }
    }

    /// The style of the surroundings in the colour `c`.
    #[verifier::allow_in_spec]
    pub fn of(c: Color) -> Style
        returns
            (Style { fg: Some(c), bg: None, bold: false, underlined: false }),
    {
        Style { fg: Some(c), bg: None, bold: false, underlined: false }
    }

    /// The style on the background `c`.
    #[verifier::allow_in_spec]
    pub fn on(self, c: Color) -> Style
        returns
            (Style { fg: self.fg, bg: Some(c), bold: self.bold, underlined: self.underlined }),
    {
        Style { fg: self.fg, bg: Some(c), bold: self.bold, underlined: self.underlined }
    }

    /// The style in bold.
    #[verifier::allow_in_spec]
    pub fn bold(self) -> Style
        returns
            (Style { fg: self.fg, bg: self.bg, bold: true, underlined: self.underlined }),
    {
        Style { fg: self.fg, bg: self.bg, bold: true, underlined: self.underlined }
    }

    /// The style with a line below the text.
    #[verifier::allow_in_spec]
    pub fn underlined(self) -> Style
        returns
            (Style { fg: self.fg, bg: self.bg, bold: self.bold, underlined: true }),
    {
        Style { fg: self.fg, bg: self.bg, bold: self.bold, underlined: true }
    }
}

/// Keys and frames that are active.
#[verifier::allow_in_spec]
pub fn st_accent() -> Style
    returns
        Style::of(C_ACCENT),
{
    Style::of(C_ACCENT)
}

/// What is of less interest.
#[verifier::allow_in_spec]
pub fn st_muted() -> Style
    returns
        Style::of(C_MUTED),
{
    Style::of(C_MUTED)
}

/// What cannot be undone.
#[verifier::allow_in_spec]
pub fn st_danger() -> Style
    returns
        Style::of(C_DANGER).bold(),
{
    Style::of(C_DANGER).bold()
}

/// Warnings.
#[verifier::allow_in_spec]
pub fn st_warn() -> Style
    returns
        Style::of(C_WARN),
{
    Style::of(C_WARN)
}

/// Titles.
#[verifier::allow_in_spec]
pub fn st_bold() -> Style
    returns
        Style::plain().bold(),
{
    Style::plain().bold()
}

/// Packages that are marked.
#[verifier::allow_in_spec]
pub fn st_mark() -> Style
    returns
        Style::of(C_MARK).bold(),
{
    Style::of(C_MARK).bold()
}

/// What has gone well.
#[verifier::allow_in_spec]
pub fn st_success() -> Style
    returns
        Style::of(C_SUCCESS),
{
    Style::of(C_SUCCESS)
}

/// Orphans.
#[verifier::allow_in_spec]
pub fn st_orphan() -> Style
    returns
        Style::of(C_ORPHAN).bold(),
{
    Style::of(C_ORPHAN).bold()
}

/// The colour in which a size in bytes is shown: the larger, the more alarming.
#[verifier::allow_in_spec]
pub fn size_color(b: i64) -> Color
    returns
        (if b < 30_000_000 {
            C_SUCCESS
        } else if b < 500_000_000 {
            C_WARN
        } else {
            C_DANGER
        }),
{
    if b < 30_000_000 {
        C_SUCCESS
    } else if b < 500_000_000 {
        C_WARN
    } else {
        C_DANGER
    }
}

/// What the parts of a style are: each function sets one of them and keeps the rest.
pub proof fn styles_are_built_part_by_part(s: Style, c: Color)
    ensures
        Style::plain().fg is None && Style::plain().bg is None,
        !Style::plain().bold && !Style::plain().underlined,
        Style::of(c) == (Style { fg: Some(c), ..Style::plain() }),
        s.on(c) == (Style { bg: Some(c), ..s }),
        s.bold() == (Style { bold: true, ..s }),
        s.underlined() == (Style { underlined: true, ..s }),
{
}

/// Sizes are shown in green, from 30 million bytes on in yellow, and from 500 million
/// on in red.
pub proof fn sizes_have_three_colours(b: i64)
    ensures
        size_color(b) == Color::Green <==> b < 30_000_000,
        size_color(b) == Color::Yellow <==> 30_000_000 <= b < 500_000_000,
        size_color(b) == Color::LightRed <==> 500_000_000 <= b,
{
}

} // verus!
