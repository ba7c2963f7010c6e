//! Conversions between the ratatui and the crossterm style types.
use vstd::prelude::*;

use crate::style::{
    attribute_bit, attribute_index, has_attribute, Color, ContentStyle, CrosstermAttribute, CrosstermAttributes,
    CrosstermColor, Modifier, Style, BOLD, CROSSED_OUT, DIM, HIDDEN, ITALIC, RAPID_BLINK,
    REVERSED, SLOW_BLINK, UNDERLINED,
};

verus! {

/// Converts a ratatui type into a crossterm type.
pub trait IntoNotty<C> {
    /// Converts the ratatui value into the crossterm value.
    fn into_notty(self) -> C;
}

/// Converts a crossterm type into a ratatui type.
pub trait FromNotty<C>: Sized {
    /// Converts the crossterm value into the ratatui value.
    fn from_notty(value: C) -> Self;
}

/// The crossterm color that stands for a ratatui color. ratatui's plain
/// named colors are crossterm's dark ones, its light colors crossterm's plain
/// ones.
pub open spec fn color_into_crossterm(c: Color) -> CrosstermColor {
    match c {
        Color::Reset => CrosstermColor::Reset,
        Color::Black => CrosstermColor::Black,
        Color::Red => CrosstermColor::DarkRed,
        Color::Green => CrosstermColor::DarkGreen,
        Color::Yellow => CrosstermColor::DarkYellow,
        Color::Blue => CrosstermColor::DarkBlue,
        Color::Magenta => CrosstermColor::DarkMagenta,
        Color::Cyan => CrosstermColor::DarkCyan,
        Color::Gray => CrosstermColor::Grey,
        Color::DarkGray => CrosstermColor::DarkGrey,
        Color::LightRed => CrosstermColor::Red,
        Color::LightGreen => CrosstermColor::Green,
        Color::LightBlue => CrosstermColor::Blue,
        Color::LightYellow => CrosstermColor::Yellow,
        Color::LightMagenta => CrosstermColor::Magenta,
        Color::LightCyan => CrosstermColor::Cyan,
        Color::White => CrosstermColor::White,
        Color::Indexed(i) => CrosstermColor::AnsiValue(i),
        Color::Rgb(r, g, b) => CrosstermColor::Rgb { r, g, b },
    }
}

/// The ratatui color that stands for a crossterm color.
pub open spec fn crossterm_into_color(t: CrosstermColor) -> Color {
    match t {
        CrosstermColor::Reset => Color::Reset,
        CrosstermColor::Black => Color::Black,
        CrosstermColor::DarkRed => Color::Red,
        CrosstermColor::DarkGreen => Color::Green,
        CrosstermColor::DarkYellow => Color::Yellow,
        CrosstermColor::DarkBlue => Color::Blue,
        CrosstermColor::DarkMagenta => Color::Magenta,
        CrosstermColor::DarkCyan => Color::Cyan,
        CrosstermColor::Grey => Color::Gray,
        CrosstermColor::DarkGrey => Color::DarkGray,
        CrosstermColor::Red => Color::LightRed,
        CrosstermColor::Green => Color::LightGreen,
        CrosstermColor::Blue => Color::LightBlue,
        CrosstermColor::Yellow => Color::LightYellow,
        CrosstermColor::Magenta => Color::LightMagenta,
        CrosstermColor::Cyan => Color::LightCyan,
        CrosstermColor::White => Color::White,
        CrosstermColor::Rgb { r, g, b } => Color::Rgb(r, g, b),
        CrosstermColor::AnsiValue(v) => Color::Indexed(v),
    }
}

impl IntoNotty<CrosstermColor> for Color {
    fn into_notty(self) -> (r: CrosstermColor)
        ensures
            r == color_into_crossterm(self),
    {
        match self {
            Color::Reset => CrosstermColor::Reset,
            Color::Black => CrosstermColor::Black,
            Color::Red => CrosstermColor::DarkRed,
            Color::Green => CrosstermColor::DarkGreen,
            Color::Yellow => CrosstermColor::DarkYellow,
            Color::Blue => CrosstermColor::DarkBlue,
            Color::Magenta => CrosstermColor::DarkMagenta,
            Color::Cyan => CrosstermColor::DarkCyan,
            Color::Gray => CrosstermColor::Grey,
            Color::DarkGray => CrosstermColor::DarkGrey,
            Color::LightRed => CrosstermColor::Red,
            Color::LightGreen => CrosstermColor::Green,
            Color::LightBlue => CrosstermColor::Blue,
            Color::LightYellow => CrosstermColor::Yellow,
            Color::LightMagenta => CrosstermColor::Magenta,
            Color::LightCyan => CrosstermColor::Cyan,
            Color::White => CrosstermColor::White,
            Color::Indexed(i) => CrosstermColor::AnsiValue(i),
            Color::Rgb(r, g, b) => CrosstermColor::Rgb { r, g, b },
        }
    }
}

impl FromNotty<CrosstermColor> for Color {
    fn from_notty(value: CrosstermColor) -> (r: Color)
        ensures
            r == crossterm_into_color(value),
    {
        match value {
            CrosstermColor::Reset => Color::Reset,
            CrosstermColor::Black => Color::Black,
            CrosstermColor::DarkRed => Color::Red,
            CrosstermColor::DarkGreen => Color::Green,
            CrosstermColor::DarkYellow => Color::Yellow,
            CrosstermColor::DarkBlue => Color::Blue,
            CrosstermColor::DarkMagenta => Color::Magenta,
            CrosstermColor::DarkCyan => Color::Cyan,
            CrosstermColor::Grey => Color::Gray,
            CrosstermColor::DarkGrey => Color::DarkGray,
            CrosstermColor::Red => Color::LightRed,
            CrosstermColor::Green => Color::LightGreen,
            CrosstermColor::Blue => Color::LightBlue,
            CrosstermColor::Yellow => Color::LightYellow,
            CrosstermColor::Magenta => Color::LightMagenta,
            CrosstermColor::Cyan => Color::LightCyan,
            CrosstermColor::White => Color::White,
            CrosstermColor::Rgb { r, g, b } => Color::Rgb(r, g, b),
            CrosstermColor::AnsiValue(v) => Color::Indexed(v),
        }
    }
}

/// Converting a ratatui color to crossterm and back gives the color again.
pub proof fn lemma_color_round_trip(c: Color)
    ensures
        crossterm_into_color(color_into_crossterm(c)) == c,
{
}

/// Converting a crossterm color to ratatui and back gives the color again.
pub proof fn lemma_crossterm_color_round_trip(t: CrosstermColor)
    ensures
        color_into_crossterm(crossterm_into_color(t)) == t,
{
}

/// `bit` when `cond` holds, no bit otherwise.
pub open spec fn bit_if(cond: bool, bit: u16) -> u16 {
    if cond {
        bit
    } else {
        0
    }
}

fn exec_bit_if(cond: bool, bit: u16) -> (r: u16)
    ensures
        r == bit_if(cond, bit),
{
    if cond {
        bit
    } else {
        0
    }
}

/// The modifier bits that a crossterm attribute set turns on: each modifier
/// whose attribute is in the set, and `UNDERLINED` for any kind of underline.
pub open spec fn modifier_bits_of(bits: u32) -> u16 {
    bit_if(has_attribute(bits, CrosstermAttribute::Bold), BOLD)
        | bit_if(has_attribute(bits, CrosstermAttribute::Dim), DIM)
        | bit_if(has_attribute(bits, CrosstermAttribute::Italic), ITALIC)
        | bit_if(
        has_attribute(bits, CrosstermAttribute::Underlined)
            || has_attribute(bits, CrosstermAttribute::DoubleUnderlined)
            || has_attribute(bits, CrosstermAttribute::Undercurled)
            || has_attribute(bits, CrosstermAttribute::Underdotted)
            || has_attribute(bits, CrosstermAttribute::Underdashed),
        UNDERLINED,
    ) | bit_if(has_attribute(bits, CrosstermAttribute::SlowBlink), SLOW_BLINK)
        | bit_if(has_attribute(bits, CrosstermAttribute::RapidBlink), RAPID_BLINK)
        | bit_if(has_attribute(bits, CrosstermAttribute::Reverse), REVERSED)
        | bit_if(has_attribute(bits, CrosstermAttribute::Hidden), HIDDEN)
        | bit_if(has_attribute(bits, CrosstermAttribute::CrossedOut), CROSSED_OUT)
}

/// The modifier bits that a crossterm attribute set turns off: each modifier
/// whose "no" attribute is in the set; `NoBlink` turns off both blinks.
pub open spec fn sub_modifier_bits_of(bits: u32) -> u16 {
    bit_if(has_attribute(bits, CrosstermAttribute::NoBold), BOLD)
        | bit_if(has_attribute(bits, CrosstermAttribute::NoItalic), ITALIC)
        | bit_if(has_attribute(bits, CrosstermAttribute::NotCrossedOut), CROSSED_OUT)
        | bit_if(has_attribute(bits, CrosstermAttribute::NoUnderline), UNDERLINED)
        | bit_if(has_attribute(bits, CrosstermAttribute::NoHidden), HIDDEN)
        | bit_if(has_attribute(bits, CrosstermAttribute::NoBlink), RAPID_BLINK | SLOW_BLINK)
        | bit_if(has_attribute(bits, CrosstermAttribute::NoReverse), REVERSED)
}

impl FromNotty<CrosstermAttributes> for Modifier {
    fn from_notty(value: CrosstermAttributes) -> (r: Modifier)
        ensures
            r.bits == modifier_bits_of(value.bits),
            modifier_reflects_attributes(r.bits, value.bits),
    {
        proof {
            lemma_modifier_reflects_attributes(value.bits);
        }
        let underlined = value.has(CrosstermAttribute::Underlined) || value.has(
            CrosstermAttribute::DoubleUnderlined,
        ) || value.has(CrosstermAttribute::Undercurled) || value.has(
            CrosstermAttribute::Underdotted,
        ) || value.has(CrosstermAttribute::Underdashed);
        let bits = exec_bit_if(value.has(CrosstermAttribute::Bold), BOLD) | exec_bit_if(
            value.has(CrosstermAttribute::Dim),
            DIM,
        ) | exec_bit_if(value.has(CrosstermAttribute::Italic), ITALIC) | exec_bit_if(
            underlined,
            UNDERLINED,
        ) | exec_bit_if(value.has(CrosstermAttribute::SlowBlink), SLOW_BLINK) | exec_bit_if(
            value.has(CrosstermAttribute::RapidBlink),
            RAPID_BLINK,
        ) | exec_bit_if(value.has(CrosstermAttribute::Reverse), REVERSED) | exec_bit_if(
            value.has(CrosstermAttribute::Hidden),
            HIDDEN,
        ) | exec_bit_if(value.has(CrosstermAttribute::CrossedOut), CROSSED_OUT);
        Modifier { bits }
    }
}

impl FromNotty<CrosstermAttribute> for Modifier {
    /// A single attribute converts as the set that holds just it.
    fn from_notty(value: CrosstermAttribute) -> (r: Modifier)
        ensures
            r.bits == modifier_bits_of(attribute_bit(value)),
            r.bits == match value {
                CrosstermAttribute::Bold => BOLD,
                CrosstermAttribute::Dim => DIM,
                CrosstermAttribute::Italic => ITALIC,
                CrosstermAttribute::Underlined => UNDERLINED,
                CrosstermAttribute::DoubleUnderlined => UNDERLINED,
                CrosstermAttribute::Undercurled => UNDERLINED,
                CrosstermAttribute::Underdotted => UNDERLINED,
                CrosstermAttribute::Underdashed => UNDERLINED,
                CrosstermAttribute::SlowBlink => SLOW_BLINK,
                CrosstermAttribute::RapidBlink => RAPID_BLINK,
                CrosstermAttribute::Reverse => REVERSED,
                CrosstermAttribute::Hidden => HIDDEN,
                CrosstermAttribute::CrossedOut => CROSSED_OUT,
                _ => 0u16,
            },
    {
        proof {
            lemma_single_attribute_modifier(value);
        }
        Modifier::from_notty(CrosstermAttributes::from_attribute(value))
    }
}

/// The ratatui color of an optional crossterm color.
pub open spec fn option_color_of(t: Option<CrosstermColor>) -> Option<Color> {
    match t {
        Some(c) => Some(crossterm_into_color(c)),
        None => None,
    }
}

fn convert_option_color(t: Option<CrosstermColor>) -> (r: Option<Color>)
    ensures
        r == option_color_of(t),
{
    match t {
        Some(c) => Some(Color::from_notty(c)),
        None => None,
    }
}

/// The ratatui style of a crossterm content style.
pub open spec fn style_of(value: ContentStyle) -> Style {
    Style {
        fg: option_color_of(value.foreground_color),
        bg: option_color_of(value.background_color),
        underline_color: option_color_of(value.underline_color),
        add_modifier: Modifier { bits: modifier_bits_of(value.attributes.bits) },
        sub_modifier: Modifier { bits: sub_modifier_bits_of(value.attributes.bits) },
    }
}

impl FromNotty<ContentStyle> for Style {
    fn from_notty(value: ContentStyle) -> (r: Style)
        ensures
            r == style_of(value),
            r.underline_color is None <==> value.underline_color is None,
            value.underline_color matches Some(c) ==> r.underline_color == Some(
                crossterm_into_color(c),
            ),
            modifier_reflects_attributes(r.add_modifier.bits, value.attributes.bits),
            modifier_reflects_removals(r.sub_modifier.bits, value.attributes.bits),
    {
        proof {
            lemma_style_fields(value);
        }
        let attributes = value.attributes;
        let sub_bits = exec_bit_if(attributes.has(CrosstermAttribute::NoBold), BOLD) | exec_bit_if(
            attributes.has(CrosstermAttribute::NoItalic),
            ITALIC,
        ) | exec_bit_if(attributes.has(CrosstermAttribute::NotCrossedOut), CROSSED_OUT)
            | exec_bit_if(attributes.has(CrosstermAttribute::NoUnderline), UNDERLINED)
            | exec_bit_if(attributes.has(CrosstermAttribute::NoHidden), HIDDEN) | exec_bit_if(
            attributes.has(CrosstermAttribute::NoBlink),
            RAPID_BLINK | SLOW_BLINK,
        ) | exec_bit_if(attributes.has(CrosstermAttribute::NoReverse), REVERSED);
        Style {
            fg: convert_option_color(value.foreground_color),
            bg: convert_option_color(value.background_color),
            underline_color: convert_option_color(value.underline_color),
            add_modifier: Modifier::from_notty(attributes),
            sub_modifier: Modifier { bits: sub_bits },
        }
    }
}

/// Every modifier bit that names a modifier (`BOLD` up to `CROSSED_OUT`).
pub open spec fn modifier_flags() -> u16 {
    BOLD | DIM | ITALIC | UNDERLINED | SLOW_BLINK | RAPID_BLINK | REVERSED | HIDDEN | CROSSED_OUT
}

/// Each bit of the modifier `m` is set exactly when its own attribute is in
/// the set `bits` (`UNDERLINED` for any kind of underline), and `m` has no
/// bit that names no modifier.
pub open spec fn modifier_reflects_attributes(m: u16, bits: u32) -> bool {
    &&& (m & BOLD != 0) == has_attribute(bits, CrosstermAttribute::Bold)
    &&& (m & DIM != 0) == has_attribute(bits, CrosstermAttribute::Dim)
    &&& (m & ITALIC != 0) == has_attribute(bits, CrosstermAttribute::Italic)
    &&& (m & UNDERLINED != 0) == (has_attribute(bits, CrosstermAttribute::Underlined)
        || has_attribute(bits, CrosstermAttribute::DoubleUnderlined) || has_attribute(
        bits,
        CrosstermAttribute::Undercurled,
    ) || has_attribute(bits, CrosstermAttribute::Underdotted) || has_attribute(
        bits,
        CrosstermAttribute::Underdashed,
    ))
    &&& (m & SLOW_BLINK != 0) == has_attribute(bits, CrosstermAttribute::SlowBlink)
    &&& (m & RAPID_BLINK != 0) == has_attribute(bits, CrosstermAttribute::RapidBlink)
    &&& (m & REVERSED != 0) == has_attribute(bits, CrosstermAttribute::Reverse)
    &&& (m & HIDDEN != 0) == has_attribute(bits, CrosstermAttribute::Hidden)
    &&& (m & CROSSED_OUT != 0) == has_attribute(bits, CrosstermAttribute::CrossedOut)
    &&& m & !modifier_flags() == 0
}

/// Each bit of the modifier `m` is set exactly when the "no" attribute that
/// turns it off is in the set `bits` (both blinks for `NoBlink`, `DIM` never),
/// and `m` has no bit that names no modifier.
pub open spec fn modifier_reflects_removals(m: u16, bits: u32) -> bool {
    &&& (m & BOLD != 0) == has_attribute(bits, CrosstermAttribute::NoBold)
    &&& m & DIM == 0
    &&& (m & ITALIC != 0) == has_attribute(bits, CrosstermAttribute::NoItalic)
    &&& (m & UNDERLINED != 0) == has_attribute(bits, CrosstermAttribute::NoUnderline)
    &&& (m & SLOW_BLINK != 0) == has_attribute(bits, CrosstermAttribute::NoBlink)
    &&& (m & RAPID_BLINK != 0) == has_attribute(bits, CrosstermAttribute::NoBlink)
    &&& (m & REVERSED != 0) == has_attribute(bits, CrosstermAttribute::NoReverse)
    &&& (m & HIDDEN != 0) == has_attribute(bits, CrosstermAttribute::NoHidden)
    &&& (m & CROSSED_OUT != 0) == has_attribute(bits, CrosstermAttribute::NotCrossedOut)
    &&& m & !modifier_flags() == 0
}

proof fn lemma_flag_union(
    bold: bool,
    dim: bool,
    italic: bool,
    underlined: bool,
    slow: bool,
    rapid: bool,
    reversed: bool,
    hidden: bool,
    crossed: bool,
)
    by (bit_vector)
    ensures
        ({
            let m = bit_if(bold, BOLD) | bit_if(dim, DIM) | bit_if(italic, ITALIC) | bit_if(
                underlined,
                UNDERLINED,
            ) | bit_if(slow, SLOW_BLINK) | bit_if(rapid, RAPID_BLINK) | bit_if(reversed, REVERSED)
                | bit_if(hidden, HIDDEN) | bit_if(crossed, CROSSED_OUT);
            &&& (m & BOLD != 0) == bold
            &&& (m & DIM != 0) == dim
            &&& (m & ITALIC != 0) == italic
            &&& (m & UNDERLINED != 0) == underlined
            &&& (m & SLOW_BLINK != 0) == slow
            &&& (m & RAPID_BLINK != 0) == rapid
            &&& (m & REVERSED != 0) == reversed
            &&& (m & HIDDEN != 0) == hidden
            &&& (m & CROSSED_OUT != 0) == crossed
            &&& m & !modifier_flags() == 0
        }),
{
}

proof fn lemma_removal_union(
    bold: bool,
    italic: bool,
    crossed: bool,
    underlined: bool,
    hidden: bool,
    blink: bool,
    reversed: bool,
)
    by (bit_vector)
    ensures
        ({
            let m = bit_if(bold, BOLD) | bit_if(italic, ITALIC) | bit_if(crossed, CROSSED_OUT)
                | bit_if(underlined, UNDERLINED) | bit_if(hidden, HIDDEN) | bit_if(
                blink,
                RAPID_BLINK | SLOW_BLINK,
            ) | bit_if(reversed, REVERSED);
            &&& (m & BOLD != 0) == bold
            &&& m & DIM == 0
            &&& (m & ITALIC != 0) == italic
            &&& (m & UNDERLINED != 0) == underlined
            &&& (m & SLOW_BLINK != 0) == blink
            &&& (m & RAPID_BLINK != 0) == blink
            &&& (m & REVERSED != 0) == reversed
            &&& (m & HIDDEN != 0) == hidden
            &&& (m & CROSSED_OUT != 0) == crossed
            &&& m & !modifier_flags() == 0
        }),
{
}

/// The modifier that an attribute set converts to has each modifier bit
/// exactly when its own attribute is in the set, and no other bit.
pub proof fn lemma_modifier_reflects_attributes(bits: u32)
    ensures
        modifier_reflects_attributes(modifier_bits_of(bits), bits),
{
    lemma_flag_union(
        has_attribute(bits, CrosstermAttribute::Bold),
        has_attribute(bits, CrosstermAttribute::Dim),
        has_attribute(bits, CrosstermAttribute::Italic),
        has_attribute(bits, CrosstermAttribute::Underlined) || has_attribute(
            bits,
            CrosstermAttribute::DoubleUnderlined,
        ) || has_attribute(bits, CrosstermAttribute::Undercurled) || has_attribute(
            bits,
            CrosstermAttribute::Underdotted,
        ) || has_attribute(bits, CrosstermAttribute::Underdashed),
        has_attribute(bits, CrosstermAttribute::SlowBlink),
        has_attribute(bits, CrosstermAttribute::RapidBlink),
        has_attribute(bits, CrosstermAttribute::Reverse),
        has_attribute(bits, CrosstermAttribute::Hidden),
        has_attribute(bits, CrosstermAttribute::CrossedOut),
    );
}

/// The modifier that a style removes has each modifier bit exactly when the
/// "no" attribute that turns it off is in the set, and no other bit.
pub proof fn lemma_sub_modifier_reflects_removals(bits: u32)
    ensures
        modifier_reflects_removals(sub_modifier_bits_of(bits), bits),
{
    lemma_removal_union(
        has_attribute(bits, CrosstermAttribute::NoBold),
        has_attribute(bits, CrosstermAttribute::NoItalic),
        has_attribute(bits, CrosstermAttribute::NotCrossedOut),
        has_attribute(bits, CrosstermAttribute::NoUnderline),
        has_attribute(bits, CrosstermAttribute::NoHidden),
        has_attribute(bits, CrosstermAttribute::NoBlink),
        has_attribute(bits, CrosstermAttribute::NoReverse),
    );
}

/// A single attribute turns on exactly its own modifier: `UNDERLINED` for
/// every kind of underline, nothing for the attributes that name no modifier.
pub proof fn lemma_single_attribute_modifier(a: CrosstermAttribute)
    ensures
        modifier_bits_of(attribute_bit(a)) == match a {
            CrosstermAttribute::Bold => BOLD,
            CrosstermAttribute::Dim => DIM,
            CrosstermAttribute::Italic => ITALIC,
            CrosstermAttribute::Underlined => UNDERLINED,
            CrosstermAttribute::DoubleUnderlined => UNDERLINED,
            CrosstermAttribute::Undercurled => UNDERLINED,
            CrosstermAttribute::Underdotted => UNDERLINED,
            CrosstermAttribute::Underdashed => UNDERLINED,
            CrosstermAttribute::SlowBlink => SLOW_BLINK,
            CrosstermAttribute::RapidBlink => RAPID_BLINK,
            CrosstermAttribute::Reverse => REVERSED,
            CrosstermAttribute::Hidden => HIDDEN,
            CrosstermAttribute::CrossedOut => CROSSED_OUT,
            _ => 0u16,
        },
{
    let bits = attribute_bit(a);
    lemma_modifier_reflects_attributes(bits);
    lemma_attribute_bits_distinct(a);
    let m = modifier_bits_of(bits);
    let expected: u16 = match a {
        CrosstermAttribute::Bold => BOLD,
        CrosstermAttribute::Dim => DIM,
        CrosstermAttribute::Italic => ITALIC,
        CrosstermAttribute::Underlined => UNDERLINED,
        CrosstermAttribute::DoubleUnderlined => UNDERLINED,
        CrosstermAttribute::Undercurled => UNDERLINED,
        CrosstermAttribute::Underdotted => UNDERLINED,
        CrosstermAttribute::Underdashed => UNDERLINED,
        CrosstermAttribute::SlowBlink => SLOW_BLINK,
        CrosstermAttribute::RapidBlink => RAPID_BLINK,
        CrosstermAttribute::Reverse => REVERSED,
        CrosstermAttribute::Hidden => HIDDEN,
        CrosstermAttribute::CrossedOut => CROSSED_OUT,
        _ => 0u16,
    };
    lemma_flag_constants();
    lemma_bits_determined(m, expected);
}

/// The set that holds one attribute holds no other attribute.
proof fn lemma_attribute_bits_distinct(a: CrosstermAttribute)
    ensures
        forall|b: CrosstermAttribute| #[trigger] has_attribute(attribute_bit(a), b) <==> a == b,
{
    assert forall|b: CrosstermAttribute| #[trigger] has_attribute(attribute_bit(a), b) <==> a
        == b by {
        let i = attribute_index(a) + 1;
        let j = attribute_index(b) + 1;
        assert(0 < i < 32 && 0 < j < 32);
        lemma_one_bit(i as u32, j as u32);
        assert(attribute_index(a) == attribute_index(b) ==> a == b);
    }
}

proof fn lemma_one_bit(i: u32, j: u32)
    requires
        i < 32,
        j < 32,
    ensures
        ((1u32 << i) & (1u32 << j) != 0) == (i == j),
{
    assert(((1u32 << i) & (1u32 << j) != 0) == (i == j)) by (bit_vector)
        requires
            i < 32,
            j < 32,
    ;
}

proof fn lemma_flag_constants()
    by (bit_vector)
    ensures
        BOLD & BOLD != 0,
        BOLD & DIM == 0,
        BOLD & ITALIC == 0,
        BOLD & UNDERLINED == 0,
        BOLD & SLOW_BLINK == 0,
        BOLD & RAPID_BLINK == 0,
        BOLD & REVERSED == 0,
        BOLD & HIDDEN == 0,
        BOLD & CROSSED_OUT == 0,
        BOLD & !modifier_flags() == 0,
        0u16 & BOLD == 0,
        DIM & BOLD == 0,
        DIM & DIM != 0,
        DIM & ITALIC == 0,
        DIM & UNDERLINED == 0,
        DIM & SLOW_BLINK == 0,
        DIM & RAPID_BLINK == 0,
        DIM & REVERSED == 0,
        DIM & HIDDEN == 0,
        DIM & CROSSED_OUT == 0,
        DIM & !modifier_flags() == 0,
        0u16 & DIM == 0,
        ITALIC & BOLD == 0,
        ITALIC & DIM == 0,
        ITALIC & ITALIC != 0,
        ITALIC & UNDERLINED == 0,
        ITALIC & SLOW_BLINK == 0,
        ITALIC & RAPID_BLINK == 0,
        ITALIC & REVERSED == 0,
        ITALIC & HIDDEN == 0,
        ITALIC & CROSSED_OUT == 0,
        ITALIC & !modifier_flags() == 0,
        0u16 & ITALIC == 0,
        UNDERLINED & BOLD == 0,
        UNDERLINED & DIM == 0,
        UNDERLINED & ITALIC == 0,
        UNDERLINED & UNDERLINED != 0,
        UNDERLINED & SLOW_BLINK == 0,
        UNDERLINED & RAPID_BLINK == 0,
        UNDERLINED & REVERSED == 0,
        UNDERLINED & HIDDEN == 0,
        UNDERLINED & CROSSED_OUT == 0,
        UNDERLINED & !modifier_flags() == 0,
        0u16 & UNDERLINED == 0,
        SLOW_BLINK & BOLD == 0,
        SLOW_BLINK & DIM == 0,
        SLOW_BLINK & ITALIC == 0,
        SLOW_BLINK & UNDERLINED == 0,
        SLOW_BLINK & SLOW_BLINK != 0,
        SLOW_BLINK & RAPID_BLINK == 0,
        SLOW_BLINK & REVERSED == 0,
        SLOW_BLINK & HIDDEN == 0,
        SLOW_BLINK & CROSSED_OUT == 0,
        SLOW_BLINK & !modifier_flags() == 0,
        0u16 & SLOW_BLINK == 0,
        RAPID_BLINK & BOLD == 0,
        RAPID_BLINK & DIM == 0,
        RAPID_BLINK & ITALIC == 0,
        RAPID_BLINK & UNDERLINED == 0,
        RAPID_BLINK & SLOW_BLINK == 0,
        RAPID_BLINK & RAPID_BLINK != 0,
        RAPID_BLINK & REVERSED == 0,
        RAPID_BLINK & HIDDEN == 0,
        RAPID_BLINK & CROSSED_OUT == 0,
        RAPID_BLINK & !modifier_flags() == 0,
        0u16 & RAPID_BLINK == 0,
        REVERSED & BOLD == 0,
        REVERSED & DIM == 0,
        REVERSED & ITALIC == 0,
        REVERSED & UNDERLINED == 0,
        REVERSED & SLOW_BLINK == 0,
        REVERSED & RAPID_BLINK == 0,
        REVERSED & REVERSED != 0,
        REVERSED & HIDDEN == 0,
        REVERSED & CROSSED_OUT == 0,
        REVERSED & !modifier_flags() == 0,
        0u16 & REVERSED == 0,
        HIDDEN & BOLD == 0,
        HIDDEN & DIM == 0,
        HIDDEN & ITALIC == 0,
        HIDDEN & UNDERLINED == 0,
        HIDDEN & SLOW_BLINK == 0,
        HIDDEN & RAPID_BLINK == 0,
        HIDDEN & REVERSED == 0,
        HIDDEN & HIDDEN != 0,
        HIDDEN & CROSSED_OUT == 0,
        HIDDEN & !modifier_flags() == 0,
        0u16 & HIDDEN == 0,
        CROSSED_OUT & BOLD == 0,
        CROSSED_OUT & DIM == 0,
        CROSSED_OUT & ITALIC == 0,
        CROSSED_OUT & UNDERLINED == 0,
        CROSSED_OUT & SLOW_BLINK == 0,
        CROSSED_OUT & RAPID_BLINK == 0,
        CROSSED_OUT & REVERSED == 0,
        CROSSED_OUT & HIDDEN == 0,
        CROSSED_OUT & CROSSED_OUT != 0,
        CROSSED_OUT & !modifier_flags() == 0,
        0u16 & CROSSED_OUT == 0,
        0u16 & !modifier_flags() == 0,
{
}

proof fn lemma_bits_determined(m: u16, e: u16)
    requires
        (m & BOLD != 0) == (e & BOLD != 0),
        (m & DIM != 0) == (e & DIM != 0),
        (m & ITALIC != 0) == (e & ITALIC != 0),
        (m & UNDERLINED != 0) == (e & UNDERLINED != 0),
        (m & SLOW_BLINK != 0) == (e & SLOW_BLINK != 0),
        (m & RAPID_BLINK != 0) == (e & RAPID_BLINK != 0),
        (m & REVERSED != 0) == (e & REVERSED != 0),
        (m & HIDDEN != 0) == (e & HIDDEN != 0),
        (m & CROSSED_OUT != 0) == (e & CROSSED_OUT != 0),
        m & !modifier_flags() == 0,
        e & !modifier_flags() == 0,
    ensures
        m == e,
{
    assert(m == e) by (bit_vector)
        requires
            (m & BOLD != 0) == (e & BOLD != 0),
            (m & DIM != 0) == (e & DIM != 0),
            (m & ITALIC != 0) == (e & ITALIC != 0),
            (m & UNDERLINED != 0) == (e & UNDERLINED != 0),
            (m & SLOW_BLINK != 0) == (e & SLOW_BLINK != 0),
            (m & RAPID_BLINK != 0) == (e & RAPID_BLINK != 0),
            (m & REVERSED != 0) == (e & REVERSED != 0),
            (m & HIDDEN != 0) == (e & HIDDEN != 0),
            (m & CROSSED_OUT != 0) == (e & CROSSED_OUT != 0),
            m & !modifier_flags() == 0,
            e & !modifier_flags() == 0,
    ;
}

/// An indexed color keeps its index, and an RGB color its three components,
/// in both directions; `Reset` stays `Reset`.
pub proof fn lemma_color_parameters_kept(i: u8, r: u8, g: u8, b: u8)
    ensures
        color_into_crossterm(Color::Indexed(i)) == CrosstermColor::AnsiValue(i),
        crossterm_into_color(CrosstermColor::AnsiValue(i)) == Color::Indexed(i),
        color_into_crossterm(Color::Rgb(r, g, b)) == (CrosstermColor::Rgb { r, g, b }),
        crossterm_into_color(CrosstermColor::Rgb { r, g, b }) == Color::Rgb(r, g, b),
        color_into_crossterm(Color::Reset) == CrosstermColor::Reset,
        crossterm_into_color(CrosstermColor::Reset) == Color::Reset,
{
}

/// A content style converts field by field: each color is absent exactly
/// when it is absent in the content style and is otherwise its own converted
/// color (so no color is taken from another field), the added modifier holds
/// each modifier whose attribute is set, and the removed modifier each
/// modifier whose "no" attribute is set.
pub proof fn lemma_style_fields(value: ContentStyle)
    ensures
        style_of(value).fg is None <==> value.foreground_color is None,
        style_of(value).bg is None <==> value.background_color is None,
        style_of(value).underline_color is None <==> value.underline_color is None,
        value.foreground_color matches Some(c) ==> style_of(value).fg == Some(
            crossterm_into_color(c),
        ),
        value.background_color matches Some(c) ==> style_of(value).bg == Some(
            crossterm_into_color(c),
        ),
        value.underline_color matches Some(c) ==> style_of(value).underline_color == Some(
            crossterm_into_color(c),
        ),
        modifier_reflects_attributes(style_of(value).add_modifier.bits, value.attributes.bits),
        modifier_reflects_removals(style_of(value).sub_modifier.bits, value.attributes.bits),
{
    lemma_modifier_reflects_attributes(value.attributes.bits);
    lemma_sub_modifier_reflects_removals(value.attributes.bits);
}

/// The entry of the terminal's 256-color palette that a ratatui color selects,
/// as ratatui documents its colors (SGR 30-37 for entries 0-7, SGR 90-97 for
/// entries 8-15, `Indexed(i)` for entry `i`); none for `Reset` and RGB colors.
pub open spec fn palette_entry(c: Color) -> Option<u8> {
    match c {
        Color::Black => Some(0u8),
        Color::Red => Some(1u8),
        Color::Green => Some(2u8),
        Color::Yellow => Some(3u8),
        Color::Blue => Some(4u8),
        Color::Magenta => Some(5u8),
        Color::Cyan => Some(6u8),
        Color::Gray => Some(7u8),
        Color::DarkGray => Some(8u8),
        Color::LightRed => Some(9u8),
        Color::LightGreen => Some(10u8),
        Color::LightYellow => Some(11u8),
        Color::LightBlue => Some(12u8),
        Color::LightMagenta => Some(13u8),
        Color::LightCyan => Some(14u8),
        Color::White => Some(15u8),
        Color::Indexed(i) => Some(i),
        _ => None,
    }
}

/// The entry of the terminal's 256-color palette that crossterm writes for
/// a color (`5;n`); none for `Reset` and RGB colors.
pub open spec fn crossterm_palette_entry(t: CrosstermColor) -> Option<u8> {
    match t {
        CrosstermColor::Black => Some(0u8),
        CrosstermColor::DarkRed => Some(1u8),
        CrosstermColor::DarkGreen => Some(2u8),
        CrosstermColor::DarkYellow => Some(3u8),
        CrosstermColor::DarkBlue => Some(4u8),
        CrosstermColor::DarkMagenta => Some(5u8),
        CrosstermColor::DarkCyan => Some(6u8),
        CrosstermColor::Grey => Some(7u8),
        CrosstermColor::DarkGrey => Some(8u8),
        CrosstermColor::Red => Some(9u8),
        CrosstermColor::Green => Some(10u8),
        CrosstermColor::Yellow => Some(11u8),
        CrosstermColor::Blue => Some(12u8),
        CrosstermColor::Magenta => Some(13u8),
        CrosstermColor::Cyan => Some(14u8),
        CrosstermColor::White => Some(15u8),
        CrosstermColor::AnsiValue(v) => Some(v),
        _ => None,
    }
}

/// A color converts, in either direction, to the color that selects the same
/// palette entry; an RGB color to the RGB color with the same components;
/// `Reset` to `Reset`.
pub proof fn lemma_colors_keep_palette_entry(c: Color, t: CrosstermColor)
    ensures
        crossterm_palette_entry(color_into_crossterm(c)) == palette_entry(c),
        palette_entry(crossterm_into_color(t)) == crossterm_palette_entry(t),
        (color_into_crossterm(c) == CrosstermColor::Reset) == (c == Color::Reset),
        (crossterm_into_color(t) == Color::Reset) == (t == CrosstermColor::Reset),
        c matches Color::Rgb(r, g, b) ==> color_into_crossterm(c) == (CrosstermColor::Rgb {
            r,
            g,
            b,
        }),
        t matches CrosstermColor::Rgb { r, g, b } ==> crossterm_into_color(t) == Color::Rgb(
            r,
            g,
            b,
        ),
{
}

} // verus!
