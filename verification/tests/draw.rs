use ratatui_notty::backend::append_lines_commands;
use ratatui_notty::command::Command;
use ratatui_notty::draw::{draw_commands, Cell};
use ratatui_notty::style::{
    Color, CrosstermAttribute, CrosstermColor, Modifier, BOLD, CROSSED_OUT, DIM, HIDDEN, ITALIC,
    RAPID_BLINK, REVERSED, SLOW_BLINK, UNDERLINED,
};
use ratatui_notty::IntoNotty;

fn cell(symbol: &str) -> Cell {
    Cell {
        symbol: symbol.to_string(),
        fg: Color::Reset,
        bg: Color::Reset,
        underline_color: Color::Reset,
        modifier: Modifier::empty(),
    }
}

fn resets() -> Vec<Command> {
    vec![
        Command::SetForegroundColor(CrosstermColor::Reset),
        Command::SetBackgroundColor(CrosstermColor::Reset),
        Command::SetUnderlineColor(CrosstermColor::Reset),
        Command::SetAttribute(CrosstermAttribute::Reset),
    ]
}

#[test]
fn drawing_nothing_only_resets() {
    assert_eq!(draw_commands(&[]), resets());
}

#[test]
fn adjacent_cells_share_one_move() {
    let content = vec![(2, 1, cell("a")), (3, 1, cell("b"))];
    let mut expected = vec![
        Command::MoveTo(2, 1),
        Command::Print("a".to_string()),
        Command::Print("b".to_string()),
    ];
    expected.extend(resets());
    assert_eq!(draw_commands(&content), expected);
}

#[test]
fn distant_cells_move_each_time() {
    let content = vec![(0, 0, cell("a")), (5, 0, cell("b")), (6, 1, cell("c"))];
    let mut expected = vec![
        Command::MoveTo(0, 0),
        Command::Print("a".to_string()),
        Command::MoveTo(5, 0),
        Command::Print("b".to_string()),
        Command::MoveTo(6, 1),
        Command::Print("c".to_string()),
    ];
    expected.extend(resets());
    assert_eq!(draw_commands(&content), expected);
}

#[test]
fn leftmost_cell_after_row_end_moves() {
    let content = vec![(65535, 0, cell("a")), (0, 0, cell("b"))];
    let cmds = draw_commands(&content);
    assert_eq!(cmds[0], Command::MoveTo(65535, 0));
    assert_eq!(cmds[2], Command::MoveTo(0, 0));
}

#[test]
fn colors_and_modifiers_change_only_when_needed() {
    let mut red_bold = cell("x");
    red_bold.fg = Color::Red;
    red_bold.modifier = Modifier::from_bits(BOLD);
    red_bold.underline_color = Color::Indexed(9);
    let mut red_italic = red_bold.clone();
    red_italic.symbol = "y".to_string();
    red_italic.modifier = Modifier::from_bits(ITALIC);
    let content = vec![(0, 0, red_bold.clone()), (1, 0, red_bold), (2, 0, red_italic)];
    let mut expected = vec![
        Command::MoveTo(0, 0),
        Command::SetAttribute(CrosstermAttribute::Bold),
        Command::SetColors(CrosstermColor::DarkRed, CrosstermColor::Reset),
        Command::SetUnderlineColor(CrosstermColor::AnsiValue(9)),
        Command::Print("x".to_string()),
        Command::Print("x".to_string()),
        Command::SetAttribute(CrosstermAttribute::NormalIntensity),
        Command::SetAttribute(CrosstermAttribute::Italic),
        Command::Print("y".to_string()),
    ];
    expected.extend(resets());
    assert_eq!(draw_commands(&content), expected);
}

#[test]
fn background_change_sets_both_colors() {
    let a = cell("a");
    let mut b = cell("b");
    b.bg = Color::LightCyan;
    let content = vec![(0, 3, a), (1, 3, b)];
    let cmds = draw_commands(&content);
    assert_eq!(cmds[2], Command::SetColors(CrosstermColor::Reset, CrosstermColor::Cyan));
}

#[test]
fn every_symbol_printed_in_order() {
    let content: Vec<(u16, u16, Cell)> = (0..20u16)
        .map(|i| (i * 3 % 7, i / 5, cell(&format!("s{}", i))))
        .collect();
    let printed: Vec<String> = draw_commands(&content)
        .into_iter()
        .filter_map(|c| match c {
            Command::Print(s) => Some(s),
            _ => None,
        })
        .collect();
    let symbols: Vec<String> = content.iter().map(|t| t.2.symbol.clone()).collect();
    assert_eq!(printed, symbols);
}

#[test]
fn append_lines_prints_newlines() {
    assert_eq!(
        append_lines_commands(3),
        vec![
            Command::Print("\n".to_string()),
            Command::Print("\n".to_string()),
            Command::Print("\n".to_string())
        ]
    );
    assert!(append_lines_commands(0).is_empty());
}

/// What a terminal shows while it runs the commands, one column per symbol.
#[derive(Clone, Copy, Debug, PartialEq)]
struct Screen {
    column: u32,
    row: u32,
    fg: CrosstermColor,
    bg: CrosstermColor,
    underline: CrosstermColor,
    modifier: u16,
}

fn run(commands: &[Command]) -> (Vec<(Screen, String)>, Screen) {
    let mut s = Screen {
        column: 0,
        row: 0,
        fg: CrosstermColor::Reset,
        bg: CrosstermColor::Reset,
        underline: CrosstermColor::Reset,
        modifier: 0,
    };
    let mut events = Vec::new();
    for c in commands {
        match c {
            Command::MoveTo(x, y) => {
                s.column = *x as u32;
                s.row = *y as u32;
            }
            Command::SetColors(f, b) => {
                s.fg = *f;
                s.bg = *b;
            }
            Command::SetForegroundColor(f) => s.fg = *f,
            Command::SetBackgroundColor(b) => s.bg = *b,
            Command::SetUnderlineColor(u) => s.underline = *u,
            Command::SetAttribute(a) => {
                s.modifier = match a {
                    CrosstermAttribute::Reset => 0,
                    CrosstermAttribute::Bold => s.modifier | BOLD,
                    CrosstermAttribute::Dim => s.modifier | DIM,
                    CrosstermAttribute::Italic => s.modifier | ITALIC,
                    CrosstermAttribute::Underlined => s.modifier | UNDERLINED,
                    CrosstermAttribute::SlowBlink => s.modifier | SLOW_BLINK,
                    CrosstermAttribute::RapidBlink => s.modifier | RAPID_BLINK,
                    CrosstermAttribute::Reverse => s.modifier | REVERSED,
                    CrosstermAttribute::CrossedOut => s.modifier | CROSSED_OUT,
                    CrosstermAttribute::NormalIntensity => s.modifier & !(BOLD | DIM),
                    CrosstermAttribute::NoItalic => s.modifier & !ITALIC,
                    CrosstermAttribute::NoUnderline => s.modifier & !UNDERLINED,
                    CrosstermAttribute::NoBlink => s.modifier & !(SLOW_BLINK | RAPID_BLINK),
                    CrosstermAttribute::NoReverse => s.modifier & !REVERSED,
                    CrosstermAttribute::NotCrossedOut => s.modifier & !CROSSED_OUT,
                    other => panic!("unexpected attribute {:?}", other),
                }
            }
            Command::Print(text) => {
                events.push((s, text.clone()));
                s.column += 1;
            }
        }
    }
    (events, s)
}

#[test]
fn drawn_cells_show_their_style() {
    let styles: [(Color, Color, Color, u16); 5] = [
        (Color::Red, Color::Reset, Color::Reset, BOLD | ITALIC),
        (Color::Red, Color::Blue, Color::Reset, DIM),
        (Color::Rgb(1, 2, 3), Color::Blue, Color::Indexed(4), DIM | UNDERLINED | HIDDEN),
        (Color::White, Color::Black, Color::Indexed(4), REVERSED),
        (Color::Reset, Color::Reset, Color::Reset, 0),
    ];
    let mut content = Vec::new();
    for i in 0..30u16 {
        let (fg, bg, underline_color, bits) = styles[(i as usize * 7) % 5];
        let c = Cell {
            symbol: format!("{}", i % 10),
            fg,
            bg,
            underline_color,
            modifier: Modifier::from_bits(bits),
        };
        content.push((i % 8 + (i / 16), i / 8, c));
    }
    let (events, last) = run(&draw_commands(&content));
    assert_eq!(events.len(), content.len());
    let managed: u16 = 0b1_0111_1111;
    for (k, (screen, text)) in events.iter().enumerate() {
        let (x, y, c) = &content[k];
        assert_eq!(text, &c.symbol);
        assert_eq!((screen.column, screen.row), (*x as u32, *y as u32));
        assert_eq!(screen.fg, c.fg.into_notty());
        assert_eq!(screen.bg, c.bg.into_notty());
        assert_eq!(screen.underline, c.underline_color.into_notty());
        assert_eq!(screen.modifier, c.modifier.bits & managed);
    }
    assert_eq!(last.fg, CrosstermColor::Reset);
    assert_eq!(last.bg, CrosstermColor::Reset);
    assert_eq!(last.underline, CrosstermColor::Reset);
    assert_eq!(last.modifier, 0);
}
