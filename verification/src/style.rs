//! Plain-value models of the style types that the backend converts between:
//! ratatui's `Color`, `Modifier` and `Style` on one side, crossterm's `Color`,
//! `Attribute`, `Attributes` and `ContentStyle` on the other.
use vstd::prelude::*;

verus! {

/// A ratatui color.
#[derive(Clone, Copy, Debug, PartialEq, Eq, Structural)]
pub enum Color {
    Reset,
    Black,
    Red,
    Green,
    Yellow,
    Blue,
    Magenta,
    Cyan,
    Gray,
    DarkGray,
    LightRed,
    LightGreen,
    LightYellow,
    LightBlue,
    LightMagenta,
    LightCyan,
    White,
    Rgb(u8, u8, u8),
    Indexed(u8),
}

/// A crossterm color.
#[derive(Clone, Copy, Debug, PartialEq, Eq, Structural)]
pub enum CrosstermColor {
    Reset,
    Black,
    DarkGrey,
    Red,
    DarkRed,
    Green,
    DarkGreen,
    Yellow,
    DarkYellow,
    Blue,
    DarkBlue,
    Magenta,
    DarkMagenta,
    Cyan,
    DarkCyan,
    White,
    Grey,
    Rgb { r: u8, g: u8, b: u8 },
    AnsiValue(u8),
}

/// The bit of `Modifier::BOLD`.
pub const BOLD: u16 = 0b0000_0000_0001;

/// The bit of `Modifier::DIM`.
pub const DIM: u16 = 0b0000_0000_0010;

/// The bit of `Modifier::ITALIC`.
pub const ITALIC: u16 = 0b0000_0000_0100;

/// The bit of `Modifier::UNDERLINED`.
pub const UNDERLINED: u16 = 0b0000_0000_1000;

/// The bit of `Modifier::SLOW_BLINK`.
pub const SLOW_BLINK: u16 = 0b0000_0001_0000;

/// The bit of `Modifier::RAPID_BLINK`.
pub const RAPID_BLINK: u16 = 0b0000_0010_0000;

/// The bit of `Modifier::REVERSED`.
pub const REVERSED: u16 = 0b0000_0100_0000;

/// The bit of `Modifier::HIDDEN`.
pub const HIDDEN: u16 = 0b0000_1000_0000;

/// The bit of `Modifier::CROSSED_OUT`.
pub const CROSSED_OUT: u16 = 0b0001_0000_0000;

/// A ratatui modifier: a set of text attributes held as bits of a `u16`.
#[derive(Clone, Copy, Debug, PartialEq, Eq, Structural)]
pub struct Modifier {
    pub bits: u16,
}

impl Modifier {
    /// The modifier with no bit set.
    pub fn empty() -> (r: Modifier)
        ensures
            r.bits == 0,
    {
        Modifier { bits: 0 }
    }

    /// The modifier with exactly the given bits.
    pub fn from_bits(bits: u16) -> (r: Modifier)
        ensures
            r.bits == bits,
    {
        Modifier { bits }
    }

    /// Whether every bit of `other` is set in `self`.
    pub fn contains(&self, other: Modifier) -> (r: bool)
        ensures
            r == (self.bits & other.bits == other.bits),
    {
        self.bits & other.bits == other.bits
    }

    /// The bits of `self` that are not in `other` (ratatui's `self - other`).
    pub fn difference(self, other: Modifier) -> (r: Modifier)
        ensures
            r.bits == self.bits & !other.bits,
    {
        Modifier { bits: self.bits & !other.bits }
    }
}

/// A crossterm text attribute, in crossterm's order of declaration.
#[derive(Clone, Copy, Debug, PartialEq, Eq, Structural)]
pub enum CrosstermAttribute {
    Reset,
    Bold,
    Dim,
    Italic,
    Underlined,
    DoubleUnderlined,
    Undercurled,
    Underdotted,
    Underdashed,
    SlowBlink,
    RapidBlink,
    Reverse,
    Hidden,
    CrossedOut,
    Fraktur,
    NoBold,
    NormalIntensity,
    NoItalic,
    NoUnderline,
    NoBlink,
    NoReverse,
    NoHidden,
    NotCrossedOut,
    Framed,
    Encircled,
    OverLined,
    NotFramedOrEncircled,
    NotOverLined,
}

/// The position of an attribute in crossterm's declaration of `Attribute`.
pub open spec fn attribute_index(a: CrosstermAttribute) -> u32 {
    match a {
        CrosstermAttribute::Reset => 0,
        CrosstermAttribute::Bold => 1,
        CrosstermAttribute::Dim => 2,
        CrosstermAttribute::Italic => 3,
        CrosstermAttribute::Underlined => 4,
        CrosstermAttribute::DoubleUnderlined => 5,
        CrosstermAttribute::Undercurled => 6,
        CrosstermAttribute::Underdotted => 7,
        CrosstermAttribute::Underdashed => 8,
        CrosstermAttribute::SlowBlink => 9,
        CrosstermAttribute::RapidBlink => 10,
        CrosstermAttribute::Reverse => 11,
        CrosstermAttribute::Hidden => 12,
        CrosstermAttribute::CrossedOut => 13,
        CrosstermAttribute::Fraktur => 14,
        CrosstermAttribute::NoBold => 15,
        CrosstermAttribute::NormalIntensity => 16,
        CrosstermAttribute::NoItalic => 17,
        CrosstermAttribute::NoUnderline => 18,
        CrosstermAttribute::NoBlink => 19,
        CrosstermAttribute::NoReverse => 20,
        CrosstermAttribute::NoHidden => 21,
        CrosstermAttribute::NotCrossedOut => 22,
        CrosstermAttribute::Framed => 23,
        CrosstermAttribute::Encircled => 24,
        CrosstermAttribute::OverLined => 25,
        CrosstermAttribute::NotFramedOrEncircled => 26,
        CrosstermAttribute::NotOverLined => 27,
    }
}

/// The bit that stands for an attribute in an attribute set: one above its
/// position, so that `Reset` has a bit too.
pub open spec fn attribute_bit(a: CrosstermAttribute) -> u32 {
    1u32 << (attribute_index(a) + 1)
}

impl CrosstermAttribute {
    /// The position of this attribute in the declaration order.
    pub fn index(self) -> (r: u32)
        ensures
            r == attribute_index(self),
            r < 28,
    {
        match self {
            CrosstermAttribute::Reset => 0,
            CrosstermAttribute::Bold => 1,
            CrosstermAttribute::Dim => 2,
            CrosstermAttribute::Italic => 3,
            CrosstermAttribute::Underlined => 4,
            CrosstermAttribute::DoubleUnderlined => 5,
            CrosstermAttribute::Undercurled => 6,
            CrosstermAttribute::Underdotted => 7,
            CrosstermAttribute::Underdashed => 8,
            CrosstermAttribute::SlowBlink => 9,
            CrosstermAttribute::RapidBlink => 10,
            CrosstermAttribute::Reverse => 11,
            CrosstermAttribute::Hidden => 12,
            CrosstermAttribute::CrossedOut => 13,
            CrosstermAttribute::Fraktur => 14,
            CrosstermAttribute::NoBold => 15,
            CrosstermAttribute::NormalIntensity => 16,
            CrosstermAttribute::NoItalic => 17,
            CrosstermAttribute::NoUnderline => 18,
            CrosstermAttribute::NoBlink => 19,
            CrosstermAttribute::NoReverse => 20,
            CrosstermAttribute::NoHidden => 21,
            CrosstermAttribute::NotCrossedOut => 22,
            CrosstermAttribute::Framed => 23,
            CrosstermAttribute::Encircled => 24,
            CrosstermAttribute::OverLined => 25,
            CrosstermAttribute::NotFramedOrEncircled => 26,
            CrosstermAttribute::NotOverLined => 27,
        }
    }

    /// The bit of this attribute in an attribute set.
    pub fn bytes(self) -> (r: u32)
        ensures
            r == attribute_bit(self),
    {
        let i = self.index();
        1u32 << (i + 1)
    }
}

/// A set of crossterm attributes, one bit per attribute.
#[derive(Clone, Copy, Debug, PartialEq, Eq, Structural)]
pub struct CrosstermAttributes {
    pub bits: u32,
}

/// Whether the set with the given bits holds the attribute.
pub open spec fn has_attribute(bits: u32, a: CrosstermAttribute) -> bool {
    bits & attribute_bit(a) != 0
}

impl CrosstermAttributes {
    /// The empty set.
    pub fn none() -> (r: CrosstermAttributes)
        ensures
            r.bits == 0,
    {
        CrosstermAttributes { bits: 0 }
    }

    /// The set that holds just the given attribute.
    pub fn from_attribute(a: CrosstermAttribute) -> (r: CrosstermAttributes)
        ensures
            r.bits == attribute_bit(a),
    {
        CrosstermAttributes { bits: a.bytes() }
    }

    /// This set with the given attribute added.
    pub fn with(self, a: CrosstermAttribute) -> (r: CrosstermAttributes)
        ensures
            r.bits == self.bits | attribute_bit(a),
    {
        CrosstermAttributes { bits: self.bits | a.bytes() }
    }

    /// Whether the set holds the attribute.
    pub fn has(&self, a: CrosstermAttribute) -> (r: bool)
        ensures
            r == has_attribute(self.bits, a),
    {
        self.bits & a.bytes() != 0
    }
}

/// A crossterm content style.
#[derive(Clone, Copy, Debug, PartialEq, Eq, Structural)]
pub struct ContentStyle {
    pub foreground_color: Option<CrosstermColor>,
    pub background_color: Option<CrosstermColor>,
    pub underline_color: Option<CrosstermColor>,
    pub attributes: CrosstermAttributes,
}

/// A ratatui style.
#[derive(Clone, Copy, Debug, PartialEq, Eq, Structural)]
pub struct Style {
    pub fg: Option<Color>,
    pub bg: Option<Color>,
    pub underline_color: Option<Color>,
    pub add_modifier: Modifier,
    pub sub_modifier: Modifier,
}

} // verus!
