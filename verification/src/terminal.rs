//! A model of what a terminal shows while it runs the backend's commands,
//! and what drawing a frame makes it show.
use vstd::prelude::*;

use crate::command::Command;
use crate::convert::color_into_crossterm;
use crate::draw::{
    attribute_commands, cell_commands, content_commands, draw_spec, initial_state, needs_move,
    reset_commands, state_after, Cell, DrawState,
};
use crate::modifier_diff::{
    apply_attribute, apply_attributes, blink_lost, diff_attributes, lemma_diff_applies_to_managed,
    managed_bits,
};
use crate::style::{CrosstermAttribute, CrosstermColor};

verus! {

/// What a terminal shows: where its cursor is, its colors and the modifier
/// it prints with.
pub struct Terminal {
    pub column: int,
    pub row: int,
    pub fg: CrosstermColor,
    pub bg: CrosstermColor,
    pub underline_color: CrosstermColor,
    pub modifier: u16,
}

/// The terminal after one command. A printed symbol is taken to be one
/// column wide: it moves the cursor one column right.
pub open spec fn run_command(t: Terminal, c: Command) -> Terminal {
    match c {
        Command::MoveTo(x, y) => Terminal { column: x as int, row: y as int, ..t },
        Command::SetAttribute(a) => Terminal { modifier: apply_attribute(t.modifier, a), ..t },
        Command::SetColors(fg, bg) => Terminal { fg, bg, ..t },
        Command::SetForegroundColor(fg) => Terminal { fg, ..t },
        Command::SetBackgroundColor(bg) => Terminal { bg, ..t },
        Command::SetUnderlineColor(u) => Terminal { underline_color: u, ..t },
        Command::Print(_) => Terminal { column: t.column + 1, ..t },
    }
}

/// The terminal after the commands, in order.
pub open spec fn run_commands(t: Terminal, cmds: Seq<Command>) -> Terminal
    decreases cmds.len(),
{
    if cmds.len() == 0 {
        t
    } else {
        run_commands(run_command(t, cmds[0]), cmds.drop_first())
    }
}

/// Each text that the commands print, with what the terminal shows when it
/// is printed.
pub open spec fn print_events(t: Terminal, cmds: Seq<Command>) -> Seq<(Terminal, String)>
    decreases cmds.len(),
{
    if cmds.len() == 0 {
        seq![]
    } else {
        match cmds[0] {
            Command::Print(s) => seq![(t, s)] + print_events(
                run_command(t, cmds[0]),
                cmds.drop_first(),
            ),
            _ => print_events(run_command(t, cmds[0]), cmds.drop_first()),
        }
    }
}

/// The terminal shows what the draw state records: its colors, the managed
/// bits of its modifier (and no other bit), and a cursor just right of the
/// last printed symbol.
pub open spec fn agrees(t: Terminal, st: DrawState) -> bool {
    &&& t.fg == color_into_crossterm(st.fg)
    &&& t.bg == color_into_crossterm(st.bg)
    &&& t.underline_color == color_into_crossterm(st.underline_color)
    &&& t.modifier == st.modifier.bits & managed_bits()
    &&& (st.last_pos matches Some(p) ==> t.column == p.0 + 1 && t.row == p.1)
}

/// The terminal prints at `(x, y)` with the cell's colors and with the
/// managed bits of the cell's modifier.
pub open spec fn shows_cell(t: Terminal, x: u16, y: u16, cell: Cell) -> bool {
    &&& t.column == x
    &&& t.row == y
    &&& t.fg == color_into_crossterm(cell.fg)
    &&& t.bg == color_into_crossterm(cell.bg)
    &&& t.underline_color == color_into_crossterm(cell.underline_color)
    &&& t.modifier == cell.modifier.bits & managed_bits()
}

/// The modifier drawn before the `k`-th cell: `prev` before the first.
pub open spec fn modifier_before(prev: u16, content: Seq<(u16, u16, Cell)>, k: int) -> u16 {
    if k == 0 {
        prev
    } else {
        content[k - 1].2.modifier.bits
    }
}

/// No cell's modifier removes a blink of the modifier drawn before it while
/// it keeps the other blink.
pub open spec fn keeps_blinks_from(prev: u16, content: Seq<(u16, u16, Cell)>) -> bool {
    forall|k: int|
        0 <= k < content.len() ==> !blink_lost(
            modifier_before(prev, content, k),
            #[trigger] content[k].2.modifier.bits,
        )
}

proof fn lemma_run_concat(t: Terminal, a: Seq<Command>, b: Seq<Command>)
    ensures
        run_commands(t, a + b) == run_commands(run_commands(t, a), b),
    decreases a.len(),
{
    if a.len() == 0 {
        assert(a + b =~= b);
    } else {
        assert((a + b).drop_first() =~= a.drop_first() + b);
        assert((a + b)[0] == a[0]);
        lemma_run_concat(run_command(t, a[0]), a.drop_first(), b);
    }
}

proof fn lemma_events_concat(t: Terminal, a: Seq<Command>, b: Seq<Command>)
    ensures
        print_events(t, a + b) == print_events(t, a) + print_events(run_commands(t, a), b),
    decreases a.len(),
{
    if a.len() == 0 {
        assert(a + b =~= b);
        assert(print_events(t, a) + print_events(t, b) =~= print_events(t, b));
    } else {
        assert((a + b).drop_first() =~= a.drop_first() + b);
        assert((a + b)[0] == a[0]);
        let t1 = run_command(t, a[0]);
        lemma_events_concat(t1, a.drop_first(), b);
        match a[0] {
            Command::Print(s) => {
                assert(seq![(t, s)] + (print_events(t1, a.drop_first()) + print_events(
                    run_commands(t1, a.drop_first()),
                    b,
                )) =~= (seq![(t, s)] + print_events(t1, a.drop_first())) + print_events(
                    run_commands(t1, a.drop_first()),
                    b,
                ));
            },
            _ => {},
        }
    }
}

proof fn lemma_one_command(t: Terminal, c: Command)
    ensures
        run_commands(t, seq![c]) == run_command(t, c),
        print_events(t, seq![c]) == (match c {
            Command::Print(s) => seq![(t, s)],
            _ => Seq::<(Terminal, String)>::empty(),
        }),
{
    let s = seq![c];
    assert(s[0] == c);
    assert(s.drop_first() =~= Seq::<Command>::empty());
    assert(run_commands(run_command(t, c), Seq::<Command>::empty()) == run_command(t, c));
    assert(print_events(run_command(t, c), Seq::<Command>::empty()) =~= Seq::<
        (Terminal, String),
    >::empty());
    match c {
        Command::Print(x) => {
            assert(seq![(t, x)] + Seq::<(Terminal, String)>::empty() =~= seq![(t, x)]);
        },
        _ => {},
    }
}

proof fn lemma_run_attribute_commands(t: Terminal, attrs: Seq<CrosstermAttribute>)
    ensures
        run_commands(t, attribute_commands(attrs)) == (Terminal {
            modifier: apply_attributes(t.modifier, attrs),
            ..t
        }),
        print_events(t, attribute_commands(attrs)) == Seq::<(Terminal, String)>::empty(),
    decreases attrs.len(),
{
    let cmds = attribute_commands(attrs);
    if attrs.len() == 0 {
        assert(cmds.len() == 0);
    } else {
        assert(cmds[0] == Command::SetAttribute(attrs[0]));
        assert(cmds.drop_first() =~= attribute_commands(attrs.drop_first()));
        let t1 = run_command(t, cmds[0]);
        lemma_run_attribute_commands(t1, attrs.drop_first());
    }
}

proof fn lemma_managed_only(s: u16, from: u16, to: u16)
    requires
        s == from & managed_bits(),
    ensures
        s & managed_bits() == from & managed_bits(),
        (to & managed_bits()) | (s & !managed_bits()) == to & managed_bits(),
{
    assert(s & managed_bits() == from & managed_bits() && (to & managed_bits()) | (s
        & !managed_bits()) == to & managed_bits()) by (bit_vector)
        requires
            s == from & managed_bits(),
    ;
}

proof fn lemma_cell_shown(t: Terminal, st: DrawState, x: u16, y: u16, cell: Cell)
    requires
        agrees(t, st),
        !blink_lost(st.modifier.bits, cell.modifier.bits),
    ensures
        print_events(t, cell_commands(st, x, y, cell)).len() == 1,
        print_events(t, cell_commands(st, x, y, cell))[0].1 == cell.symbol,
        shows_cell(print_events(t, cell_commands(st, x, y, cell))[0].0, x, y, cell),
        agrees(run_commands(t, cell_commands(st, x, y, cell)), state_after(x, y, cell)),
{
    let m = managed_bits();
    let a = if needs_move(st.last_pos, x, y) {
        seq![Command::MoveTo(x, y)]
    } else {
        seq![]
    };
    let b = if cell.modifier != st.modifier {
        attribute_commands(diff_attributes(st.modifier.bits, cell.modifier.bits))
    } else {
        seq![]
    };
    let c = if cell.fg != st.fg || cell.bg != st.bg {
        seq![Command::SetColors(color_into_crossterm(cell.fg), color_into_crossterm(cell.bg))]
    } else {
        seq![]
    };
    let d = if cell.underline_color != st.underline_color {
        seq![Command::SetUnderlineColor(color_into_crossterm(cell.underline_color))]
    } else {
        seq![]
    };
    let e = seq![Command::Print(cell.symbol)];
    assert(cell_commands(st, x, y, cell) == a + b + c + d + e);
    lemma_run_concat(t, a + b + c + d, e);
    lemma_run_concat(t, a + b + c, d);
    lemma_run_concat(t, a + b, c);
    lemma_run_concat(t, a, b);
    lemma_events_concat(t, a + b + c + d, e);
    lemma_events_concat(t, a + b + c, d);
    lemma_events_concat(t, a + b, c);
    lemma_events_concat(t, a, b);

    // The move puts the cursor at the cell.
    let t1 = run_commands(t, a);
    if needs_move(st.last_pos, x, y) {
        lemma_one_command(t, Command::MoveTo(x, y));
    } else {
        assert(a.len() == 0);
    }
    assert(print_events(t, a).len() == 0);
    assert(t1.column == x && t1.row == y);
    assert(t1.modifier == t.modifier && t1.fg == t.fg && t1.bg == t.bg && t1.underline_color
        == t.underline_color);

    // The attributes make the terminal show the cell's modifier.
    let t2 = run_commands(t1, b);
    let from = st.modifier.bits;
    let to = cell.modifier.bits;
    if cell.modifier != st.modifier {
        lemma_run_attribute_commands(t1, diff_attributes(from, to));
        lemma_managed_only(t1.modifier, from, to);
        lemma_diff_applies_to_managed(t1.modifier, from, to);
    } else {
        assert(b.len() == 0);
        assert(from == to);
    }
    assert(print_events(t1, b).len() == 0);
    assert(t2.modifier == to & m);
    assert(t2.column == x && t2.row == y);
    assert(t2.fg == t.fg && t2.bg == t.bg && t2.underline_color == t.underline_color);

    // The colors.
    let t3 = run_commands(t2, c);
    if cell.fg != st.fg || cell.bg != st.bg {
        lemma_one_command(
            t2,
            Command::SetColors(color_into_crossterm(cell.fg), color_into_crossterm(cell.bg)),
        );
    } else {
        assert(c.len() == 0);
    }
    assert(print_events(t2, c).len() == 0);
    assert(t3.fg == color_into_crossterm(cell.fg));
    assert(t3.bg == color_into_crossterm(cell.bg));

    // The underline color.
    let t4 = run_commands(t3, d);
    if cell.underline_color != st.underline_color {
        lemma_one_command(
            t3,
            Command::SetUnderlineColor(color_into_crossterm(cell.underline_color)),
        );
    } else {
        assert(d.len() == 0);
    }
    assert(print_events(t3, d).len() == 0);
    assert(shows_cell(t4, x, y, cell));

    // The symbol.
    lemma_one_command(t4, Command::Print(cell.symbol));
    let before = print_events(t, a) + print_events(t1, b) + print_events(t2, c) + print_events(
        t3,
        d,
    );
    assert(before =~= Seq::<(Terminal, String)>::empty());
    assert(before + print_events(t4, e) =~= seq![(t4, cell.symbol)]);
}

proof fn lemma_content_shown(t: Terminal, st: DrawState, content: Seq<(u16, u16, Cell)>)
    requires
        agrees(t, st),
        keeps_blinks_from(st.modifier.bits, content),
    ensures
        print_events(t, content_commands(st, content)).len() == content.len(),
        forall|k: int|
            0 <= k < content.len() ==> {
                &&& (#[trigger] print_events(t, content_commands(st, content))[k]).1
                    == content[k].2.symbol
                &&& shows_cell(
                    print_events(t, content_commands(st, content))[k].0,
                    content[k].0,
                    content[k].1,
                    content[k].2,
                )
            },
    decreases content.len(),
{
    if content.len() == 0 {
        assert(print_events(t, content_commands(st, content)).len() == 0);
    } else {
        let head = content[0];
        let rest = content.drop_first();
        let cmds = cell_commands(st, head.0, head.1, head.2);
        let next = state_after(head.0, head.1, head.2);
        assert(!blink_lost(
            modifier_before(st.modifier.bits, content, 0),
            content[0].2.modifier.bits,
        ));
        lemma_cell_shown(t, st, head.0, head.1, head.2);
        let t1 = run_commands(t, cmds);
        assert forall|k: int| 0 <= k < rest.len() implies !blink_lost(
            modifier_before(next.modifier.bits, rest, k),
            #[trigger] rest[k].2.modifier.bits,
        ) by {
            assert(rest[k] == content[k + 1]);
            assert(!blink_lost(
                modifier_before(st.modifier.bits, content, k + 1),
                content[k + 1].2.modifier.bits,
            ));
            if k > 0 {
                assert(rest[k - 1] == content[k]);
            }
        }
        lemma_content_shown(t1, next, rest);
        lemma_events_concat(t, cmds, content_commands(next, rest));
        let ev = print_events(t, content_commands(st, content));
        let ev_rest = print_events(t1, content_commands(next, rest));
        assert(ev == print_events(t, cmds) + ev_rest);
        assert forall|k: int| 0 <= k < content.len() implies {
            &&& (#[trigger] ev[k]).1 == content[k].2.symbol
            &&& shows_cell(ev[k].0, content[k].0, content[k].1, content[k].2)
        } by {
            if k > 0 {
                assert(ev[k] == ev_rest[k - 1]);
                assert(content[k] == rest[k - 1]);
            }
        }
    }
}

/// Drawing a frame on a terminal that shows the default colors and no
/// modifier prints the symbol of every cell, in order, at the cell's
/// position, with the cell's colors and with the cell's modifier on the
/// modifiers that the difference manages (`HIDDEN` is never shown), printed
/// symbols taken as one column wide; and it leaves the terminal with the
/// default colors and no modifier. Left out: content where a cell's modifier
/// removes one blink of the previous cell's modifier and keeps the other.
pub proof fn lemma_draw_shows_every_cell(t: Terminal, content: Seq<(u16, u16, Cell)>)
    requires
        t.fg == CrosstermColor::Reset,
        t.bg == CrosstermColor::Reset,
        t.underline_color == CrosstermColor::Reset,
        t.modifier == 0,
        keeps_blinks_from(0, content),
    ensures
        print_events(t, draw_spec(content)).len() == content.len(),
        forall|k: int|
            0 <= k < content.len() ==> {
                &&& (#[trigger] print_events(t, draw_spec(content))[k]).1 == content[k].2.symbol
                &&& shows_cell(
                    print_events(t, draw_spec(content))[k].0,
                    content[k].0,
                    content[k].1,
                    content[k].2,
                )
            },
        run_commands(t, draw_spec(content)).fg == CrosstermColor::Reset,
        run_commands(t, draw_spec(content)).bg == CrosstermColor::Reset,
        run_commands(t, draw_spec(content)).underline_color == CrosstermColor::Reset,
        run_commands(t, draw_spec(content)).modifier == 0,
{
    let st = initial_state();
    assert(0u16 & managed_bits() == 0) by (bit_vector);
    assert(agrees(t, st));
    let body = content_commands(st, content);
    lemma_content_shown(t, st, content);
    lemma_events_concat(t, body, reset_commands());
    lemma_run_concat(t, body, reset_commands());
    let r = reset_commands();
    let t1 = run_commands(t, body);
    let c0 = Command::SetForegroundColor(CrosstermColor::Reset);
    let c1 = Command::SetBackgroundColor(CrosstermColor::Reset);
    let c2 = Command::SetUnderlineColor(CrosstermColor::Reset);
    let c3 = Command::SetAttribute(CrosstermAttribute::Reset);
    assert(r == seq![c0] + seq![c1] + seq![c2] + seq![c3]);
    lemma_run_concat(t1, seq![c0] + seq![c1] + seq![c2], seq![c3]);
    lemma_run_concat(t1, seq![c0] + seq![c1], seq![c2]);
    lemma_run_concat(t1, seq![c0], seq![c1]);
    lemma_events_concat(t1, seq![c0] + seq![c1] + seq![c2], seq![c3]);
    lemma_events_concat(t1, seq![c0] + seq![c1], seq![c2]);
    lemma_events_concat(t1, seq![c0], seq![c1]);
    let s1 = run_commands(t1, seq![c0]);
    let s2 = run_commands(s1, seq![c1]);
    let s3 = run_commands(s2, seq![c2]);
    lemma_one_command(t1, c0);
    lemma_one_command(s1, c1);
    lemma_one_command(s2, c2);
    lemma_one_command(s3, c3);
    let ev_body = print_events(t, body);
    assert(print_events(t1, r) =~= Seq::<(Terminal, String)>::empty());
    assert(print_events(t, draw_spec(content)) =~= ev_body);
}

} // verus!
