//! Colors, text modifiers and styles.
use vstd::prelude::*;

verus! {

/// A terminal color. `Reset` is the terminal's own default.
#[derive(Debug, Clone, Copy, PartialEq, Eq, Hash, Default, Structural)]
pub enum Color {
    #[default]
    Reset,
    Black,
    Red,
    Green,
    Yellow,
    Blue,
    Magenta,
    Cyan,
    Gray,
    DarkGray,
    LightRed,
    LightGreen,
    LightYellow,
    LightBlue,
    LightMagenta,
    LightCyan,
    White,
    Rgb(u8, u8, u8),
    Indexed(u8),
}

/// A set of text modifiers, one bit per modifier, so that any combination can
/// be held.
#[derive(Debug, Clone, Copy, PartialEq, Eq, Hash, Default, Structural)]
pub struct Modifier {
    pub bits: u16,
}

pub const BOLD_BIT: u16 = 0b0000_0000_0001;
pub const DIM_BIT: u16 = 0b0000_0000_0010;
pub const ITALIC_BIT: u16 = 0b0000_0000_0100;
pub const UNDERLINED_BIT: u16 = 0b0000_0000_1000;
pub const SLOW_BLINK_BIT: u16 = 0b0000_0001_0000;
pub const RAPID_BLINK_BIT: u16 = 0b0000_0010_0000;
pub const REVERSED_BIT: u16 = 0b0000_0100_0000;
pub const HIDDEN_BIT: u16 = 0b0000_1000_0000;
pub const CROSSED_OUT_BIT: u16 = 0b0001_0000_0000;

impl Modifier {
    pub open spec fn contains_spec(self, other: Modifier) -> bool {
        self.bits & other.bits == other.bits
    }

    pub fn empty() -> (r: Modifier)
        ensures
            r.bits == 0,
    {
        Modifier { bits: 0 }
    }

    pub fn from_bits(bits: u16) -> (r: Modifier)
        ensures
            r.bits == bits,
    {
        Modifier { bits }
    }

    pub fn bold() -> (r: Modifier)
        ensures
            r.bits == BOLD_BIT,
    {
        Modifier { bits: BOLD_BIT }
    }

    pub fn dim() -> (r: Modifier)
        ensures
            r.bits == DIM_BIT,
    {
        Modifier { bits: DIM_BIT }
    }

    pub fn italic() -> (r: Modifier)
        ensures
            r.bits == ITALIC_BIT,
    {
        Modifier { bits: ITALIC_BIT }
    }

    pub fn underlined() -> (r: Modifier)
        ensures
            r.bits == UNDERLINED_BIT,
    {
        Modifier { bits: UNDERLINED_BIT }
    }

    pub fn slow_blink() -> (r: Modifier)
        ensures
            r.bits == SLOW_BLINK_BIT,
    {
        Modifier { bits: SLOW_BLINK_BIT }
    }

    pub fn rapid_blink() -> (r: Modifier)
        ensures
            r.bits == RAPID_BLINK_BIT,
    {
        Modifier { bits: RAPID_BLINK_BIT }
    }

    pub fn reversed() -> (r: Modifier)
        ensures
            r.bits == REVERSED_BIT,
    {
        Modifier { bits: REVERSED_BIT }
    }

    pub fn hidden() -> (r: Modifier)
        ensures
            r.bits == HIDDEN_BIT,
    {
        Modifier { bits: HIDDEN_BIT }
    }

    pub fn crossed_out() -> (r: Modifier)
        ensures
            r.bits == CROSSED_OUT_BIT,
    {
        Modifier { bits: CROSSED_OUT_BIT }
    }

    /// Whether every modifier of `other` is in `self`.
    pub fn contains(self, other: Modifier) -> (r: bool)
        ensures
            r == self.contains_spec(other),
    {
        self.bits & other.bits == other.bits
    }

    /// The modifiers in either set.
    pub fn union(self, other: Modifier) -> (r: Modifier)
        ensures
            r.bits == self.bits | other.bits,
    {
        Modifier { bits: self.bits | other.bits }
    }

    /// The modifiers of `self` that are not in `other`.
    pub fn difference(self, other: Modifier) -> (r: Modifier)
        ensures
            r.bits == self.bits & !other.bits,
    {
        Modifier { bits: self.bits & !other.bits }
    }

    pub fn is_empty(self) -> (r: bool)
        ensures
            r == (self.bits == 0),
    {
        self.bits == 0
    }
}

/// A style to lay over a cell: each color that is set replaces the cell's,
/// `add_modifier` is added to the cell's modifiers and `sub_modifier` is then
/// taken away.
#[derive(Debug, Clone, Copy, PartialEq, Eq, Hash, Default)]
pub struct Style {
    pub fg: Option<Color>,
    pub bg: Option<Color>,
    pub underline_color: Option<Color>,
    pub add_modifier: Modifier,
    pub sub_modifier: Modifier,
}

impl Style {
    pub fn new() -> (r: Style)
        ensures
            r.fg is None,
            r.bg is None,
            r.underline_color is None,
            r.add_modifier.bits == 0,
            r.sub_modifier.bits == 0,
    {
        Style {
            fg: None,
            bg: None,
            underline_color: None,
            add_modifier: Modifier::empty(),
            sub_modifier: Modifier::empty(),
        }
    }

    pub fn fg(self, color: Color) -> (r: Style)
        ensures
            r == (Style { fg: Some(color), ..self }),
    {
        Style { fg: Some(color), ..self }
    }

    pub fn bg(self, color: Color) -> (r: Style)
        ensures
            r == (Style { bg: Some(color), ..self }),
    {
        Style { bg: Some(color), ..self }
    }

    pub fn underline_color(self, color: Color) -> (r: Style)
        ensures
            r == (Style { underline_color: Some(color), ..self }),
    {
        Style { underline_color: Some(color), ..self }
    }

    /// Adds `m` to the modifiers this style turns on, and no longer turns it off.
    pub fn add_modifier(self, m: Modifier) -> (r: Style)
        ensures
            r.fg == self.fg && r.bg == self.bg && r.underline_color == self.underline_color,
            r.add_modifier.bits == self.add_modifier.bits | m.bits,
            r.sub_modifier.bits == self.sub_modifier.bits & !m.bits,
    {
        Style {
            add_modifier: self.add_modifier.union(m),
            sub_modifier: self.sub_modifier.difference(m),
            ..self
        }
    }

    /// Adds `m` to the modifiers this style turns off, and no longer turns it on.
    pub fn remove_modifier(self, m: Modifier) -> (r: Style)
        ensures
            r.fg == self.fg && r.bg == self.bg && r.underline_color == self.underline_color,
            r.add_modifier.bits == self.add_modifier.bits & !m.bits,
            r.sub_modifier.bits == self.sub_modifier.bits | m.bits,
    {
        Style {
            add_modifier: self.add_modifier.difference(m),
            sub_modifier: self.sub_modifier.union(m),
            ..self
        }
    }
}

} // verus!
