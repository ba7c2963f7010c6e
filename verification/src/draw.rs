//! The commands that draw a run of cells.
use vstd::prelude::*;

use crate::command::{lemma_printed_concat, lemma_printed_none, printed, Command};
use crate::convert::{color_into_crossterm, IntoNotty};
use crate::modifier_diff::{diff_attributes, ModifierDiff};
use crate::style::{Color, CrosstermAttribute, CrosstermColor, Modifier};

verus! {

/// The content of one cell of a ratatui buffer.
#[derive(Clone, Debug, PartialEq, Eq)]
pub struct Cell {
    pub symbol: String,
    pub fg: Color,
    pub bg: Color,
    pub underline_color: Color,
    pub modifier: Modifier,
}

/// What the terminal is known to show after the commands queued so far: the
/// colors, the modifier and where the last symbol was printed.
#[derive(Clone, Copy, Debug)]
pub struct DrawState {
    pub fg: Color,
    pub bg: Color,
    pub underline_color: Color,
    pub modifier: Modifier,
    pub last_pos: Option<(u16, u16)>,
}

/// The state before anything is drawn: default colors, no modifier, no
/// position.
pub open spec fn initial_state() -> DrawState {
    DrawState {
        fg: Color::Reset,
        bg: Color::Reset,
        underline_color: Color::Reset,
        modifier: Modifier { bits: 0 },
        last_pos: None,
    }
}

/// The cursor must be moved unless the previous symbol was printed just
/// left of `(x, y)`, on the same row.
pub open spec fn needs_move(last_pos: Option<(u16, u16)>, x: u16, y: u16) -> bool {
    match last_pos {
        Some((px, py)) => !(x == px + 1 && y == py),
        None => true,
    }
}

/// Queues each attribute as a `SetAttribute` command.
pub open spec fn attribute_commands(attrs: Seq<CrosstermAttribute>) -> Seq<Command> {
    attrs.map_values(|a: CrosstermAttribute| Command::SetAttribute(a))
}

/// The commands that draw one cell at `(x, y)` after the state `st`: a move
/// unless the cell follows the previous one, the modifier changes, the
/// colors where either differs, the underline color where it differs, and
/// the symbol.
pub open spec fn cell_commands(st: DrawState, x: u16, y: u16, cell: Cell) -> Seq<Command> {
    (if needs_move(st.last_pos, x, y) {
        seq![Command::MoveTo(x, y)]
    } else {
        seq![]
    }) + (if cell.modifier != st.modifier {
        attribute_commands(diff_attributes(st.modifier.bits, cell.modifier.bits))
    } else {
        seq![]
    }) + (if cell.fg != st.fg || cell.bg != st.bg {
        seq![
            Command::SetColors(color_into_crossterm(cell.fg), color_into_crossterm(cell.bg)),
        ]
    } else {
        seq![]
    }) + (if cell.underline_color != st.underline_color {
        seq![Command::SetUnderlineColor(color_into_crossterm(cell.underline_color))]
    } else {
        seq![]
    }) + seq![Command::Print(cell.symbol)]
}

/// After a cell is drawn the terminal shows its colors and modifier, and
/// the last position is the cell's.
pub open spec fn state_after(x: u16, y: u16, cell: Cell) -> DrawState {
    DrawState {
        fg: cell.fg,
        bg: cell.bg,
        underline_color: cell.underline_color,
        modifier: cell.modifier,
        last_pos: Some((x, y)),
    }
}

/// The commands that draw the cells, in order, from the state `st`.
pub open spec fn content_commands(st: DrawState, content: Seq<(u16, u16, Cell)>) -> Seq<Command>
    decreases content.len(),
{
    if content.len() == 0 {
        seq![]
    } else {
        cell_commands(st, content[0].0, content[0].1, content[0].2) + content_commands(
            state_after(content[0].0, content[0].1, content[0].2),
            content.drop_first(),
        )
    }
}

/// The commands that end a frame: default colors and no attribute.
pub open spec fn reset_commands() -> Seq<Command> {
    seq![
        Command::SetForegroundColor(CrosstermColor::Reset),
        Command::SetBackgroundColor(CrosstermColor::Reset),
        Command::SetUnderlineColor(CrosstermColor::Reset),
        Command::SetAttribute(CrosstermAttribute::Reset),
    ]
}

/// The commands that draw the content: those of each cell, then the resets.
pub open spec fn draw_spec(content: Seq<(u16, u16, Cell)>) -> Seq<Command> {
    content_commands(initial_state(), content) + reset_commands()
}

fn exec_needs_move(last_pos: Option<(u16, u16)>, x: u16, y: u16) -> (r: bool)
    ensures
        r == needs_move(last_pos, x, y),
{
    match last_pos {
        Some((px, py)) => !((x as u32) == (px as u32) + 1 && y == py),
        None => true,
    }
}

fn push_attribute_commands(out: &mut Vec<Command>, from: Modifier, to: Modifier)
    ensures
        final(out)@ == old(out)@ + attribute_commands(diff_attributes(from.bits, to.bits)),
{
    let attrs = ModifierDiff { from, to }.attributes();
    let ghost start = out@;
    let mut i: usize = 0;
    while i < attrs.len()
        invariant
            0 <= i <= attrs.len(),
            out@ == start + attribute_commands(attrs@.subrange(0, i as int)),
        decreases attrs.len() - i,
    {
        out.push(Command::SetAttribute(attrs[i]));
        proof {
            assert(attribute_commands(attrs@.subrange(0, i + 1)) =~= attribute_commands(
                attrs@.subrange(0, i as int),
            ).push(Command::SetAttribute(attrs@[i as int])));
        }
        i = i + 1;
    }
    proof {
        assert(attrs@.subrange(0, attrs.len() as int) =~= attrs@);
    }
}

fn push_cell_commands(
    out: &mut Vec<Command>,
    fg: Color,
    bg: Color,
    underline_color: Color,
    modifier: Modifier,
    last_pos: Option<(u16, u16)>,
    x: u16,
    y: u16,
    cell: &Cell,
)
    ensures
        final(out)@ == old(out)@ + cell_commands(
            DrawState { fg, bg, underline_color, modifier, last_pos },
            x,
            y,
            *cell,
        ),
{
    let ghost start = out@;
    let ghost st = DrawState { fg, bg, underline_color, modifier, last_pos };
    // Move the cursor if the previous location was not (x - 1, y).
    let mut part: Vec<Command> = Vec::new();
    if exec_needs_move(last_pos, x, y) {
        part.push(Command::MoveTo(x, y));
    }
    let ghost p1 = part@;
    if cell.modifier != modifier {
        push_attribute_commands(&mut part, modifier, cell.modifier);
    }
    let ghost p2 = part@;
    if cell.fg != fg || cell.bg != bg {
        part.push(Command::SetColors(cell.fg.into_notty(), cell.bg.into_notty()));
    }
    let ghost p3 = part@;
    if cell.underline_color != underline_color {
        part.push(Command::SetUnderlineColor(cell.underline_color.into_notty()));
    }
    let ghost p4 = part@;
    part.push(Command::Print(cell.symbol.clone()));
    proof {
        assert(p1 =~= (if needs_move(st.last_pos, x, y) {
            seq![Command::MoveTo(x, y)]
        } else {
            seq![]
        }));
        assert(p2 =~= p1 + (if cell.modifier != st.modifier {
            attribute_commands(diff_attributes(st.modifier.bits, cell.modifier.bits))
        } else {
            seq![]
        }));
        assert(p3 =~= p2 + (if cell.fg != st.fg || cell.bg != st.bg {
            seq![
                Command::SetColors(color_into_crossterm(cell.fg), color_into_crossterm(cell.bg)),
            ]
        } else {
            seq![]
        }));
        assert(p4 =~= p3 + (if cell.underline_color != st.underline_color {
            seq![Command::SetUnderlineColor(color_into_crossterm(cell.underline_color))]
        } else {
            seq![]
        }));
        assert(part@ =~= cell_commands(st, x, y, *cell));
    }
    out.append(&mut part);
}

/// The commands that draw the cells of `content`, each at its column and
/// row, in order, and then reset the colors and the attributes.
pub fn draw_commands(content: &[(u16, u16, Cell)]) -> (r: Vec<Command>)
    ensures
        r@ == draw_spec(content@),
        printed(r@) == symbols(content@),
        count_kind(r@, 0) == jumps(None, content@),
        count_kind(r@, 1) == color_changes(Color::Reset, Color::Reset, content@),
        count_kind(r@, 2) == underline_changes(Color::Reset, content@) + 1,
{
    proof {
        lemma_draw_prints_every_symbol(content@);
        lemma_draw_changes_only_when_needed(content@);
    }
    let mut out: Vec<Command> = Vec::new();
    let mut fg = Color::Reset;
    let mut bg = Color::Reset;
    let mut underline_color = Color::Reset;
    let mut modifier = Modifier::empty();
    let mut last_pos: Option<(u16, u16)> = None;
    let mut i: usize = 0;
    proof {
        let all = content_commands(initial_state(), content@);
        assert(content@.subrange(0, content@.len() as int) =~= content@);
        assert(out@ + all =~= all);
        assert(modifier == Modifier { bits: 0 });
    }
    while i < content.len()
        invariant
            0 <= i <= content@.len(),
            out@ + content_commands(
                DrawState { fg, bg, underline_color, modifier, last_pos },
                content@.subrange(i as int, content@.len() as int),
            ) == content_commands(initial_state(), content@),
        decreases content.len() - i,
    {
        let ghost rest = content@.subrange(i as int, content@.len() as int);
        let ghost before = out@;
        let x = content[i].0;
        let y = content[i].1;
        let cell = &content[i].2;
        push_cell_commands(&mut out, fg, bg, underline_color, modifier, last_pos, x, y, cell);
        proof {
            assert(rest[0] == content@[i as int]);
            assert(rest.drop_first() =~= content@.subrange(i + 1, content@.len() as int));
            vstd::seq_lib::lemma_concat_associative(
                before,
                cell_commands(
                    DrawState { fg, bg, underline_color, modifier, last_pos },
                    x,
                    y,
                    *cell,
                ),
                content_commands(state_after(x, y, *cell), rest.drop_first()),
            );
        }
        last_pos = Some((x, y));
        modifier = cell.modifier;
        fg = cell.fg;
        bg = cell.bg;
        underline_color = cell.underline_color;
        i = i + 1;
    }
    proof {
        assert(content@.subrange(i as int, content@.len() as int) =~= Seq::<
            (u16, u16, Cell),
        >::empty());
        assert(out@ + Seq::<Command>::empty() =~= out@);
    }
    out.push(Command::SetForegroundColor(CrosstermColor::Reset));
    out.push(Command::SetBackgroundColor(CrosstermColor::Reset));
    out.push(Command::SetUnderlineColor(CrosstermColor::Reset));
    out.push(Command::SetAttribute(CrosstermAttribute::Reset));
    proof {
        assert(out@ =~= draw_spec(content@));
    }
    out
}

/// The symbols of the cells, in order.
pub open spec fn symbols(content: Seq<(u16, u16, Cell)>) -> Seq<String> {
    content.map_values(|t: (u16, u16, Cell)| t.2.symbol)
}

proof fn lemma_cell_prints_symbol(st: DrawState, x: u16, y: u16, cell: Cell)
    ensures
        printed(cell_commands(st, x, y, cell)) == seq![cell.symbol],
{
    let a = if needs_move(st.last_pos, x, y) {
        seq![Command::MoveTo(x, y)]
    } else {
        seq![]
    };
    let b = if cell.modifier != st.modifier {
        attribute_commands(diff_attributes(st.modifier.bits, cell.modifier.bits))
    } else {
        seq![]
    };
    let c = if cell.fg != st.fg || cell.bg != st.bg {
        seq![Command::SetColors(color_into_crossterm(cell.fg), color_into_crossterm(cell.bg))]
    } else {
        seq![]
    };
    let d = if cell.underline_color != st.underline_color {
        seq![Command::SetUnderlineColor(color_into_crossterm(cell.underline_color))]
    } else {
        seq![]
    };
    let e = seq![Command::Print(cell.symbol)];
    lemma_printed_concat(a + b + c + d, e);
    lemma_printed_concat(a + b + c, d);
    lemma_printed_concat(a + b, c);
    lemma_printed_concat(a, b);
    lemma_printed_none(a);
    lemma_printed_none(b);
    lemma_printed_none(c);
    lemma_printed_none(d);
    assert(e.drop_first() =~= Seq::<Command>::empty());
    assert(printed(e.drop_first()) == Seq::<String>::empty());
    assert(e[0] == Command::Print(cell.symbol));
    assert(printed(e) =~= seq![cell.symbol]);
    assert(Seq::<String>::empty() + Seq::<String>::empty() + Seq::<String>::empty()
        + Seq::<String>::empty() + seq![cell.symbol] =~= seq![cell.symbol]);
}

proof fn lemma_content_prints_symbols(st: DrawState, content: Seq<(u16, u16, Cell)>)
    ensures
        printed(content_commands(st, content)) == symbols(content),
    decreases content.len(),
{
    if content.len() == 0 {
        assert(symbols(content) =~= Seq::<String>::empty());
    } else {
        let t = content[0];
        let next = state_after(t.0, t.1, t.2);
        lemma_cell_prints_symbol(st, t.0, t.1, t.2);
        lemma_content_prints_symbols(next, content.drop_first());
        lemma_printed_concat(
            cell_commands(st, t.0, t.1, t.2),
            content_commands(next, content.drop_first()),
        );
        assert(seq![t.2.symbol] + symbols(content.drop_first()) =~= symbols(content));
    }
}

/// Drawing prints the symbol of every cell, once and in the order of the
/// content, and prints nothing else.
pub proof fn lemma_draw_prints_every_symbol(content: Seq<(u16, u16, Cell)>)
    ensures
        printed(draw_spec(content)) == symbols(content),
{
    lemma_content_prints_symbols(initial_state(), content);
    lemma_printed_concat(content_commands(initial_state(), content), reset_commands());
    lemma_printed_none(reset_commands());
    assert(symbols(content) + Seq::<String>::empty() =~= symbols(content));
}

/// A kind of command that a frame queues only when something changed: 0 for
/// cursor moves, 1 for setting both colors, 2 for setting the underline
/// color, 3 for anything else.
pub open spec fn change_kind(c: Command) -> u8 {
    match c {
        Command::MoveTo(_, _) => 0,
        Command::SetColors(_, _) => 1,
        Command::SetUnderlineColor(_) => 2,
        _ => 3,
    }
}

/// How many of the commands are of the kind.
pub open spec fn count_kind(cmds: Seq<Command>, kind: u8) -> nat
    decreases cmds.len(),
{
    if cmds.len() == 0 {
        0
    } else {
        (if change_kind(cmds[0]) == kind {
            1nat
        } else {
            0nat
        }) + count_kind(cmds.drop_first(), kind)
    }
}

/// How many cells are not printed directly right of the previous cell on
/// its row (the first cell always counts, unless it follows `prev`).
pub open spec fn jumps(prev: Option<(u16, u16)>, content: Seq<(u16, u16, Cell)>) -> nat
    decreases content.len(),
{
    if content.len() == 0 {
        0
    } else {
        let follows = match prev {
            Some(p) => content[0].0 == p.0 + 1 && content[0].1 == p.1,
            None => false,
        };
        (if follows {
            0nat
        } else {
            1nat
        }) + jumps(Some((content[0].0, content[0].1)), content.drop_first())
    }
}

/// How many cells have a foreground or background color other than the
/// previous cell's (`fg` and `bg` before the first).
pub open spec fn color_changes(fg: Color, bg: Color, content: Seq<(u16, u16, Cell)>) -> nat
    decreases content.len(),
{
    if content.len() == 0 {
        0
    } else {
        (if content[0].2.fg == fg && content[0].2.bg == bg {
            0nat
        } else {
            1nat
        }) + color_changes(content[0].2.fg, content[0].2.bg, content.drop_first())
    }
}

/// How many cells have an underline color other than the previous cell's
/// (`u` before the first).
pub open spec fn underline_changes(u: Color, content: Seq<(u16, u16, Cell)>) -> nat
    decreases content.len(),
{
    if content.len() == 0 {
        0
    } else {
        (if content[0].2.underline_color == u {
            0nat
        } else {
            1nat
        }) + underline_changes(content[0].2.underline_color, content.drop_first())
    }
}

proof fn lemma_count_concat(a: Seq<Command>, b: Seq<Command>, kind: u8)
    ensures
        count_kind(a + b, kind) == count_kind(a, kind) + count_kind(b, kind),
    decreases a.len(),
{
    if a.len() == 0 {
        assert(a + b =~= b);
    } else {
        assert((a + b).drop_first() =~= a.drop_first() + b);
        assert((a + b)[0] == a[0]);
        lemma_count_concat(a.drop_first(), b, kind);
    }
}

proof fn lemma_count_one(c: Command, kind: u8)
    ensures
        count_kind(seq![c], kind) == if change_kind(c) == kind {
            1nat
        } else {
            0nat
        },
{
    assert(seq![c].drop_first() =~= Seq::<Command>::empty());
    assert(seq![c][0] == c);
    assert(count_kind(Seq::<Command>::empty(), kind) == 0);
}

proof fn lemma_count_attributes(attrs: Seq<CrosstermAttribute>, kind: u8)
    requires
        kind < 3,
    ensures
        count_kind(attribute_commands(attrs), kind) == 0,
    decreases attrs.len(),
{
    let cmds = attribute_commands(attrs);
    if attrs.len() > 0 {
        assert(cmds[0] == Command::SetAttribute(attrs[0]));
        assert(cmds.drop_first() =~= attribute_commands(attrs.drop_first()));
        lemma_count_attributes(attrs.drop_first(), kind);
    }
}

proof fn lemma_cell_counts(st: DrawState, x: u16, y: u16, cell: Cell, kind: u8)
    requires
        kind < 3,
    ensures
        count_kind(cell_commands(st, x, y, cell), kind) == if kind == 0 {
            if needs_move(st.last_pos, x, y) {
                1nat
            } else {
                0nat
            }
        } else if kind == 1 {
            if cell.fg != st.fg || cell.bg != st.bg {
                1nat
            } else {
                0nat
            }
        } else {
            if cell.underline_color != st.underline_color {
                1nat
            } else {
                0nat
            }
        },
{
    let a = if needs_move(st.last_pos, x, y) {
        seq![Command::MoveTo(x, y)]
    } else {
        seq![]
    };
    let b = if cell.modifier != st.modifier {
        attribute_commands(diff_attributes(st.modifier.bits, cell.modifier.bits))
    } else {
        seq![]
    };
    let c = if cell.fg != st.fg || cell.bg != st.bg {
        seq![Command::SetColors(color_into_crossterm(cell.fg), color_into_crossterm(cell.bg))]
    } else {
        seq![]
    };
    let d = if cell.underline_color != st.underline_color {
        seq![Command::SetUnderlineColor(color_into_crossterm(cell.underline_color))]
    } else {
        seq![]
    };
    let e = seq![Command::Print(cell.symbol)];
    lemma_count_concat(a + b + c + d, e, kind);
    lemma_count_concat(a + b + c, d, kind);
    lemma_count_concat(a + b, c, kind);
    lemma_count_concat(a, b, kind);
    if needs_move(st.last_pos, x, y) {
        lemma_count_one(Command::MoveTo(x, y), kind);
    }
    if cell.modifier != st.modifier {
        lemma_count_attributes(diff_attributes(st.modifier.bits, cell.modifier.bits), kind);
    }
    if cell.fg != st.fg || cell.bg != st.bg {
        lemma_count_one(
            Command::SetColors(color_into_crossterm(cell.fg), color_into_crossterm(cell.bg)),
            kind,
        );
    }
    if cell.underline_color != st.underline_color {
        lemma_count_one(
            Command::SetUnderlineColor(color_into_crossterm(cell.underline_color)),
            kind,
        );
    }
    lemma_count_one(Command::Print(cell.symbol), kind);
}

proof fn lemma_content_counts(st: DrawState, content: Seq<(u16, u16, Cell)>)
    ensures
        count_kind(content_commands(st, content), 0) == jumps(st.last_pos, content),
        count_kind(content_commands(st, content), 1) == color_changes(st.fg, st.bg, content),
        count_kind(content_commands(st, content), 2) == underline_changes(
            st.underline_color,
            content,
        ),
    decreases content.len(),
{
    if content.len() > 0 {
        let t = content[0];
        let next = state_after(t.0, t.1, t.2);
        lemma_content_counts(next, content.drop_first());
        let cmds = cell_commands(st, t.0, t.1, t.2);
        let rest = content_commands(next, content.drop_first());
        lemma_count_concat(cmds, rest, 0);
        lemma_count_concat(cmds, rest, 1);
        lemma_count_concat(cmds, rest, 2);
        lemma_cell_counts(st, t.0, t.1, t.2, 0);
        lemma_cell_counts(st, t.0, t.1, t.2, 1);
        lemma_cell_counts(st, t.0, t.1, t.2, 2);
    }
}

proof fn lemma_reset_counts(kind: u8)
    requires
        kind < 3,
    ensures
        count_kind(reset_commands(), kind) == if kind == 2 {
            1nat
        } else {
            0nat
        },
{
    let c0 = Command::SetForegroundColor(CrosstermColor::Reset);
    let c1 = Command::SetBackgroundColor(CrosstermColor::Reset);
    let c2 = Command::SetUnderlineColor(CrosstermColor::Reset);
    let c3 = Command::SetAttribute(CrosstermAttribute::Reset);
    assert(reset_commands() =~= seq![c0] + seq![c1] + seq![c2] + seq![c3]);
    lemma_count_concat(seq![c0] + seq![c1] + seq![c2], seq![c3], kind);
    lemma_count_concat(seq![c0] + seq![c1], seq![c2], kind);
    lemma_count_concat(seq![c0], seq![c1], kind);
    lemma_count_one(c0, kind);
    lemma_count_one(c1, kind);
    lemma_count_one(c2, kind);
    lemma_count_one(c3, kind);
}

/// A frame moves the cursor once for each cell that is not printed directly
/// right of the previous cell on its row, sets both colors once for each cell
/// whose colors differ from the previous cell's (the default colors before
/// the first), and sets the underline color once for each cell whose
/// underline color differs from the previous cell's, plus once at the end
/// to reset it.
pub proof fn lemma_draw_changes_only_when_needed(content: Seq<(u16, u16, Cell)>)
    ensures
        count_kind(draw_spec(content), 0) == jumps(None, content),
        count_kind(draw_spec(content), 1) == color_changes(Color::Reset, Color::Reset, content),
        count_kind(draw_spec(content), 2) == underline_changes(Color::Reset, content) + 1,
{
    lemma_content_counts(initial_state(), content);
    let body = content_commands(initial_state(), content);
    let r = reset_commands();
    lemma_count_concat(body, r, 0);
    lemma_count_concat(body, r, 1);
    lemma_count_concat(body, r, 2);
    lemma_reset_counts(0);
    lemma_reset_counts(1);
    lemma_reset_counts(2);
    assert(count_kind(r, 0) == 0);
    assert(count_kind(r, 1) == 0);
    assert(count_kind(r, 2) == 1);
}

} // verus!
