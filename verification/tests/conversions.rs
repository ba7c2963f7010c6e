use ratatui_notty::backend::{ClearType, CrosstermClearType, CrosstermWindowSize, WindowSize};
use ratatui_notty::style::{
    Color, ContentStyle, CrosstermAttribute, CrosstermAttributes, CrosstermColor, Modifier, Style,
    BOLD, CROSSED_OUT, DIM, HIDDEN, ITALIC, RAPID_BLINK, REVERSED, SLOW_BLINK, UNDERLINED,
};
use ratatui_notty::{FromNotty, IntoNotty};

fn all_colors() -> Vec<Color> {
    vec![
        Color::Reset,
        Color::Black,
        Color::Red,
        Color::Green,
        Color::Yellow,
        Color::Blue,
        Color::Magenta,
        Color::Cyan,
        Color::Gray,
        Color::DarkGray,
        Color::LightRed,
        Color::LightGreen,
        Color::LightYellow,
        Color::LightBlue,
        Color::LightMagenta,
        Color::LightCyan,
        Color::White,
        Color::Rgb(1, 2, 3),
        Color::Indexed(42),
    ]
}

#[test]
fn into_notty_named_colors() {
    assert_eq!(Color::Reset.into_notty(), CrosstermColor::Reset);
    assert_eq!(Color::Black.into_notty(), CrosstermColor::Black);
    assert_eq!(Color::Red.into_notty(), CrosstermColor::DarkRed);
    assert_eq!(Color::Green.into_notty(), CrosstermColor::DarkGreen);
    assert_eq!(Color::Yellow.into_notty(), CrosstermColor::DarkYellow);
    assert_eq!(Color::Blue.into_notty(), CrosstermColor::DarkBlue);
    assert_eq!(Color::Magenta.into_notty(), CrosstermColor::DarkMagenta);
    assert_eq!(Color::Cyan.into_notty(), CrosstermColor::DarkCyan);
    assert_eq!(Color::Gray.into_notty(), CrosstermColor::Grey);
    assert_eq!(Color::DarkGray.into_notty(), CrosstermColor::DarkGrey);
    assert_eq!(Color::LightRed.into_notty(), CrosstermColor::Red);
    assert_eq!(Color::LightGreen.into_notty(), CrosstermColor::Green);
    assert_eq!(Color::LightBlue.into_notty(), CrosstermColor::Blue);
    assert_eq!(Color::LightYellow.into_notty(), CrosstermColor::Yellow);
    assert_eq!(Color::LightMagenta.into_notty(), CrosstermColor::Magenta);
    assert_eq!(Color::LightCyan.into_notty(), CrosstermColor::Cyan);
    assert_eq!(Color::White.into_notty(), CrosstermColor::White);
}

#[test]
fn into_notty_indexed_and_rgb() {
    assert_eq!(Color::Indexed(200).into_notty(), CrosstermColor::AnsiValue(200));
    assert_eq!(
        Color::Rgb(10, 20, 30).into_notty(),
        CrosstermColor::Rgb { r: 10, g: 20, b: 30 }
    );
}

#[test]
fn from_notty_colors() {
    assert_eq!(Color::from_notty(CrosstermColor::DarkGrey), Color::DarkGray);
    assert_eq!(Color::from_notty(CrosstermColor::Grey), Color::Gray);
    assert_eq!(Color::from_notty(CrosstermColor::Red), Color::LightRed);
    assert_eq!(Color::from_notty(CrosstermColor::DarkRed), Color::Red);
    assert_eq!(Color::from_notty(CrosstermColor::AnsiValue(7)), Color::Indexed(7));
    assert_eq!(
        Color::from_notty(CrosstermColor::Rgb { r: 255, g: 0, b: 128 }),
        Color::Rgb(255, 0, 128)
    );
}

#[test]
fn color_round_trip_every_variant() {
    for c in all_colors() {
        assert_eq!(Color::from_notty(c.into_notty()), c);
        let t: CrosstermColor = c.into_notty();
        let back: CrosstermColor = Color::from_notty(t).into_notty();
        assert_eq!(back, t);
    }
}

#[test]
fn modifier_from_attribute_set() {
    let attrs = CrosstermAttributes::none()
        .with(CrosstermAttribute::Bold)
        .with(CrosstermAttribute::Underdotted)
        .with(CrosstermAttribute::Hidden);
    let m = Modifier::from_notty(attrs);
    assert_eq!(m.bits, BOLD | UNDERLINED | HIDDEN);
}

#[test]
fn modifier_from_every_modifier_attribute() {
    let attrs = CrosstermAttributes::none()
        .with(CrosstermAttribute::Bold)
        .with(CrosstermAttribute::Dim)
        .with(CrosstermAttribute::Italic)
        .with(CrosstermAttribute::Underlined)
        .with(CrosstermAttribute::SlowBlink)
        .with(CrosstermAttribute::RapidBlink)
        .with(CrosstermAttribute::Reverse)
        .with(CrosstermAttribute::Hidden)
        .with(CrosstermAttribute::CrossedOut);
    assert_eq!(Modifier::from_notty(attrs).bits, 0b1_1111_1111);
}

#[test]
fn modifier_from_attributes_without_modifier_is_empty() {
    let attrs = CrosstermAttributes::none()
        .with(CrosstermAttribute::Reset)
        .with(CrosstermAttribute::Fraktur)
        .with(CrosstermAttribute::NoBold)
        .with(CrosstermAttribute::Framed);
    assert_eq!(Modifier::from_notty(attrs), Modifier::empty());
}

#[test]
fn modifier_from_single_attribute() {
    assert_eq!(Modifier::from_notty(CrosstermAttribute::Undercurled).bits, UNDERLINED);
    assert_eq!(Modifier::from_notty(CrosstermAttribute::DoubleUnderlined).bits, UNDERLINED);
    assert_eq!(Modifier::from_notty(CrosstermAttribute::Underdashed).bits, UNDERLINED);
    assert_eq!(Modifier::from_notty(CrosstermAttribute::Reverse).bits, REVERSED);
    assert_eq!(Modifier::from_notty(CrosstermAttribute::CrossedOut).bits, CROSSED_OUT);
    assert_eq!(Modifier::from_notty(CrosstermAttribute::Reset).bits, 0);
    assert_eq!(Modifier::from_notty(CrosstermAttribute::NoItalic).bits, 0);
}

#[test]
fn attribute_bits_follow_declaration_order() {
    assert_eq!(CrosstermAttribute::Reset.bytes(), 1 << 1);
    assert_eq!(CrosstermAttribute::Bold.bytes(), 1 << 2);
    assert_eq!(CrosstermAttribute::NotOverLined.bytes(), 1 << 28);
    let set = CrosstermAttributes::from_attribute(CrosstermAttribute::Italic);
    assert!(set.has(CrosstermAttribute::Italic));
    assert!(!set.has(CrosstermAttribute::Bold));
}

#[test]
fn style_from_content_style() {
    let value = ContentStyle {
        foreground_color: Some(CrosstermColor::DarkBlue),
        background_color: None,
        underline_color: Some(CrosstermColor::AnsiValue(3)),
        attributes: CrosstermAttributes::none()
            .with(CrosstermAttribute::Italic)
            .with(CrosstermAttribute::NoBold)
            .with(CrosstermAttribute::NoBlink),
    };
    let style = Style::from_notty(value);
    assert_eq!(
        style,
        Style {
            fg: Some(Color::Blue),
            bg: None,
            underline_color: Some(Color::Indexed(3)),
            add_modifier: Modifier::from_bits(ITALIC),
            sub_modifier: Modifier::from_bits(BOLD | RAPID_BLINK | SLOW_BLINK),
        }
    );
}

#[test]
fn style_from_every_removal_attribute() {
    let value = ContentStyle {
        foreground_color: None,
        background_color: Some(CrosstermColor::White),
        underline_color: None,
        attributes: CrosstermAttributes::none()
            .with(CrosstermAttribute::NoBold)
            .with(CrosstermAttribute::NoItalic)
            .with(CrosstermAttribute::NotCrossedOut)
            .with(CrosstermAttribute::NoUnderline)
            .with(CrosstermAttribute::NoHidden)
            .with(CrosstermAttribute::NoBlink)
            .with(CrosstermAttribute::NoReverse),
    };
    let style = Style::from_notty(value);
    assert_eq!(style.bg, Some(Color::White));
    assert_eq!(style.add_modifier.bits, 0);
    assert_eq!(
        style.sub_modifier.bits,
        BOLD | ITALIC | CROSSED_OUT | UNDERLINED | HIDDEN | RAPID_BLINK | SLOW_BLINK | REVERSED
    );
    assert_eq!(style.sub_modifier.bits & DIM, 0);
}

#[test]
fn default_content_style_gives_default_style() {
    let value = ContentStyle {
        foreground_color: None,
        background_color: None,
        underline_color: None,
        attributes: CrosstermAttributes::none(),
    };
    let style = Style::from_notty(value);
    assert_eq!(style.fg, None);
    assert_eq!(style.bg, None);
    assert_eq!(style.underline_color, None);
    assert_eq!(style.add_modifier, Modifier::empty());
    assert_eq!(style.sub_modifier, Modifier::empty());
}

#[test]
fn clear_types_map_to_crossterm() {
    assert_eq!(ClearType::All.into_notty(), CrosstermClearType::All);
    assert_eq!(ClearType::AfterCursor.into_notty(), CrosstermClearType::FromCursorDown);
    assert_eq!(ClearType::BeforeCursor.into_notty(), CrosstermClearType::FromCursorUp);
    assert_eq!(ClearType::CurrentLine.into_notty(), CrosstermClearType::CurrentLine);
    assert_eq!(ClearType::UntilNewLine.into_notty(), CrosstermClearType::UntilNewLine);
}

#[test]
fn window_size_from_crossterm() {
    let ws = WindowSize::from_notty(CrosstermWindowSize {
        rows: 24,
        columns: 80,
        width: 640,
        height: 480,
    });
    assert_eq!(ws.columns_rows.width, 80);
    assert_eq!(ws.columns_rows.height, 24);
    assert_eq!(ws.pixels.width, 640);
    assert_eq!(ws.pixels.height, 480);
}
