//! Terminal styles and the stylesheet that maps each semantic role to one.

use ansi_term::{Colour as AnsiColour, Style as AnsiStyle};
use crate::text::{from_chars, to_chars};
use vstd::prelude::*;

verus! {

/// A terminal colour.
#[derive(Clone, Copy, Debug, PartialEq, Eq)]
pub enum Colour {
    Black,
    Red,
    Green,
    Yellow,
    Blue,
    Purple,
    Cyan,
    White,
    /// One of the 256 colours of the extended palette.
    Fixed(u8),
    /// A 24-bit colour.
    Rgb(u8, u8, u8),
}

/// How a piece of text is shown: colours and text attributes.
#[derive(Clone, Copy, Debug, PartialEq, Eq)]
pub struct Style {
    pub foreground: Option<Colour>,
    pub background: Option<Colour>,
    pub bold: bool,
    pub dimmed: bool,
    pub italic: bool,
    pub underline: bool,
    pub blink: bool,
    pub reverse: bool,
    pub hidden: bool,
    pub strikethrough: bool,
}

/// What `ansi_term` makes of `text` in `style`: the text between the escape
/// sequences that switch the style on and off again.
pub uninterp spec fn painted(style: Style, text: Seq<char>) -> Seq<char>;

impl Style {
    /// The style that changes nothing.
    pub open spec fn plain() -> Style {
        Style {
            foreground: None,
            background: None,
            bold: false,
            dimmed: false,
            italic: false,
            underline: false,
            blink: false,
            reverse: false,
            hidden: false,
            strikethrough: false,
        }
    }

    /// A style that changes nothing.
    pub fn new() -> (style: Style)
        ensures
            style == Style::plain(),
    {
        Style {
            foreground: None,
            background: None,
            bold: false,
            dimmed: false,
            italic: false,
            underline: false,
            blink: false,
            reverse: false,
            hidden: false,
            strikethrough: false,
        }
    }

    /// This style with the foreground colour `colour`.
    pub fn fg(self, colour: Colour) -> (style: Style)
        ensures
            style == (Style { foreground: Some(colour), ..self }),
    {
        Style { foreground: Some(colour), ..self }
    }

    /// This style with the background colour `colour`.
    pub fn on(self, colour: Colour) -> (style: Style)
        ensures
            style == (Style { background: Some(colour), ..self }),
    {
        Style { background: Some(colour), ..self }
    }

    /// This style in bold.
    pub fn bold(self) -> (style: Style)
        ensures
            style == (Style { bold: true, ..self }),
    {
        Style { bold: true, ..self }
    }

    /// This style dimmed.
    pub fn dimmed(self) -> (style: Style)
        ensures
            style == (Style { dimmed: true, ..self }),
    {
        Style { dimmed: true, ..self }
    }

    /// Renders `text` in this style through `ansi_term::Style::paint`: the
    /// style is handed over field by field, and what `paint` returns is
    /// written out as a string. Taken on trust: the result depends on the
    /// style and the text alone, so that it has a name, `painted`.
    #[verifier::external_body]
    pub(crate) fn paint_str(&self, text: &str) -> (out: String)
        ensures
            out@ == painted(*self, text@),
    {
        let colour = |c: Colour| match c {
            Colour::Black => AnsiColour::Black, Colour::Red => AnsiColour::Red,
            Colour::Green => AnsiColour::Green, Colour::Yellow => AnsiColour::Yellow,
            Colour::Blue => AnsiColour::Blue, Colour::Purple => AnsiColour::Purple,
            Colour::Cyan => AnsiColour::Cyan, Colour::White => AnsiColour::White,
            Colour::Fixed(n) => AnsiColour::Fixed(n),
            Colour::Rgb(r, g, b) => AnsiColour::RGB(r, g, b),
        };
        AnsiStyle {
            foreground: self.foreground.map(colour), background: self.background.map(colour),
            is_bold: self.bold, is_dimmed: self.dimmed, is_italic: self.italic,
            is_underline: self.underline, is_blink: self.blink, is_reverse: self.reverse,
            is_hidden: self.hidden, is_strikethrough: self.strikethrough,
        }.paint(text).to_string()
    }

    /// Renders `text` in this style.
    pub(crate) fn paint(&self, text: &Vec<char>) -> (out: Vec<char>)
        ensures
            out@ == painted(*self, text@),
    {
        let plain = from_chars(text);
        let shown = self.paint_str(plain.as_str());
        to_chars(shown.as_str())
    }
}

/// The stylesheet: one style for each role that a piece of output can play.
#[derive(Clone, Copy, Debug, PartialEq, Eq)]
pub struct OutputStyle {
    pub title: Style,
    pub secondary_title: Style,
    pub input: Style,
    pub output: Style,
    pub variable: Style,
    pub constant: Style,
    pub bold: Style,
    pub monospace: Style,
    pub success: Style,
    pub failure: Style,
    pub error: Style,
    pub stderr: Style,
    /// The style of the whitespace glyphs of an input; that of `input` where
    /// there is none.
    pub input_whitespace: Option<Style>,
    /// The style of the whitespace glyphs of an output; that of `output`
    /// where there is none.
    pub output_whitespace: Option<Style>,
}

impl OutputStyle {
    /// The stylesheet that is used where none is chosen.
    pub open spec fn standard() -> OutputStyle {
        OutputStyle {
            title: Style { foreground: Some(Colour::Yellow), bold: true, ..Style::plain() },
            secondary_title: Style { foreground: Some(Colour::Purple), ..Style::plain() },
            input: Style { foreground: Some(Colour::White), ..Style::plain() },
            output: Style { foreground: Some(Colour::White), ..Style::plain() },
            variable: Style { foreground: Some(Colour::Yellow), ..Style::plain() },
            constant: Style { foreground: Some(Colour::Blue), ..Style::plain() },
            bold: Style { bold: true, ..Style::plain() },
            monospace: Style { foreground: Some(Colour::Cyan), ..Style::plain() },
            success: Style { foreground: Some(Colour::Green), ..Style::plain() },
            failure: Style { foreground: Some(Colour::Red), ..Style::plain() },
            error: Style { foreground: Some(Colour::Red), ..Style::plain() },
            stderr: Style { foreground: Some(Colour::Red), ..Style::plain() },
            input_whitespace: Some(Style { dimmed: true, ..Style::plain() }),
            output_whitespace: Some(Style { dimmed: true, ..Style::plain() }),
        }
    }
}

impl Default for OutputStyle {
    fn default() -> (ostyle: OutputStyle)
        ensures
            ostyle == OutputStyle::standard(),
    {
        OutputStyle {
            title: Style::new().fg(Colour::Yellow).bold(),
            secondary_title: Style::new().fg(Colour::Purple),
            input: Style::new().fg(Colour::White),
            output: Style::new().fg(Colour::White),
            variable: Style::new().fg(Colour::Yellow),
            constant: Style::new().fg(Colour::Blue),
            bold: Style::new().bold(),
            monospace: Style::new().fg(Colour::Cyan),
            success: Style::new().fg(Colour::Green),
            failure: Style::new().fg(Colour::Red),
            error: Style::new().fg(Colour::Red),
            stderr: Style::new().fg(Colour::Red),
            input_whitespace: Some(Style::new().dimmed()),
            output_whitespace: Some(Style::new().dimmed()),
        }
    }
}

} // verus!
