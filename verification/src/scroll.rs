//! Commands that scroll a region of the terminal screen, written as ANSI
//! escape sequences.
use vstd::prelude::*;

verus! {

/// The escape byte that starts a control sequence.
pub const ESC: u8 = 27;

/// `[`, the second byte of a control sequence introducer.
pub const LEFT_BRACKET: u8 = 91;

/// `;`, the separator of numeric parameters.
pub const SEMICOLON: u8 = 59;

/// `r`, the final byte that sets the scrolling region.
pub const SET_REGION: u8 = 114;

/// `S`, the final byte that scrolls up.
pub const SCROLL_UP: u8 = 83;

/// `T`, the final byte that scrolls down.
pub const SCROLL_DOWN: u8 = 84;

/// The ASCII digit `0`.
pub const DIGIT_ZERO: u8 = 48;

/// The control sequence introducer, `ESC [`.
pub open spec fn csi() -> Seq<u8> {
    seq![ESC, LEFT_BRACKET]
}

/// The decimal digits of `n`, most significant first, without leading zeros.
pub open spec fn decimal(n: nat) -> Seq<u8>
    decreases n,
{
    if n < 10 {
        seq![(DIGIT_ZERO + n) as u8]
    } else {
        decimal(n / 10).push((DIGIT_ZERO + n % 10) as u8)
    }
}

/// Appends the decimal digits of `n`.
fn push_decimal(out: &mut Vec<u8>, n: u32)
    ensures
        final(out)@ == old(out)@ + decimal(n as nat),
    decreases n,
{
    let ghost start = out@;
    if n >= 10 {
        push_decimal(out, n / 10);
    }
    let digit = (n % 10) as u8;
    out.push(DIGIT_ZERO + digit);
    proof {
        if n >= 10 {
            assert(out@ =~= start + decimal(n as nat / 10).push((DIGIT_ZERO + n % 10) as u8));
        } else {
            assert(out@ =~= start + decimal(n as nat));
        }
    }
}

fn push_csi(out: &mut Vec<u8>)
    ensures
        final(out)@ == old(out)@ + csi(),
{
    out.push(ESC);
    out.push(LEFT_BRACKET);
    proof {
        assert(final(out)@ =~= old(out)@ + csi());
    }
}

/// A row number counted from one, as the terminal counts, saturating at the
/// largest `u16`.
pub open spec fn one_based(row: u16) -> nat {
    if row == u16::MAX {
        u16::MAX as nat
    } else {
        (row + 1) as nat
    }
}

/// The sequence that scrolls rows `first_row` to `last_row` (counted from
/// zero) by `lines` with the final byte `direction`: it sets the scrolling
/// region to those rows, scrolls it and sets the region back to the whole
/// screen. Scrolling by no line writes nothing.
pub open spec fn scroll_sequence(first_row: u16, last_row: u16, lines: u16, direction: u8) -> Seq<
    u8,
> {
    if lines == 0 {
        seq![]
    } else {
        csi() + decimal(one_based(first_row)) + seq![SEMICOLON] + decimal(one_based(last_row))
            + seq![SET_REGION] + csi() + decimal(lines as nat) + seq![direction] + csi()
            + seq![SET_REGION]
    }
}

fn scroll_bytes(first_row: u16, last_row: u16, lines: u16, direction: u8) -> (r: Vec<u8>)
    ensures
        r@ == scroll_sequence(first_row, last_row, lines, direction),
{
    let mut out: Vec<u8> = Vec::new();
    if lines != 0 {
        // Set a scrolling region that contains just the desired lines.
        push_csi(&mut out);
        proof {
            assert(out@ =~= csi());
        }
        push_decimal(&mut out, first_row.saturating_add(1) as u32);
        out.push(SEMICOLON);
        push_decimal(&mut out, last_row.saturating_add(1) as u32);
        out.push(SET_REGION);
        // Scroll the region by the desired count.
        push_csi(&mut out);
        push_decimal(&mut out, lines as u32);
        out.push(direction);
        // Reset the scrolling region to be the whole screen.
        push_csi(&mut out);
        out.push(SET_REGION);
        proof {
            assert(out@ =~= scroll_sequence(first_row, last_row, lines, direction));
        }
    }
    proof {
        assert(out@ =~= scroll_sequence(first_row, last_row, lines, direction));
    }
    out
}

/// A command that scrolls the terminal screen a given number of rows up in a
/// specific scrolling region.
#[derive(Clone, Copy, Debug, PartialEq, Eq, Structural)]
pub struct ScrollUpInRegion {
    /// The first row of the scrolling region.
    pub first_row: u16,
    /// The last row of the scrolling region.
    pub last_row: u16,
    /// The number of lines to scroll up by.
    pub lines_to_scroll: u16,
}

/// A command that scrolls the terminal screen a given number of rows down in
/// a specific scrolling region.
#[derive(Clone, Copy, Debug, PartialEq, Eq, Structural)]
pub struct ScrollDownInRegion {
    /// The first row of the scrolling region.
    pub first_row: u16,
    /// The last row of the scrolling region.
    pub last_row: u16,
    /// The number of lines to scroll down by.
    pub lines_to_scroll: u16,
}

impl ScrollUpInRegion {
    /// The command that scrolls the rows `start..end` up by `amount`.
    pub fn for_region(start: u16, end: u16, amount: u16) -> (r: ScrollUpInRegion)
        ensures
            r.first_row == start,
            r.last_row == if end == 0 {
                0
            } else {
                end - 1
            },
            r.lines_to_scroll == amount,
    {
        ScrollUpInRegion { first_row: start, last_row: end.saturating_sub(1), lines_to_scroll: amount }
    }

    /// The ANSI bytes of the command.
    pub fn write_ansi(&self) -> (r: Vec<u8>)
        ensures
            r@ == scroll_sequence(self.first_row, self.last_row, self.lines_to_scroll, SCROLL_UP),
            (r@.len() == 0) == (self.lines_to_scroll == 0),
    {
        proof {
            lemma_scroll_sequence_parts(
                self.first_row,
                self.last_row,
                self.lines_to_scroll,
                SCROLL_UP,
            );
        }
        scroll_bytes(self.first_row, self.last_row, self.lines_to_scroll, SCROLL_UP)
    }
}

impl ScrollDownInRegion {
    /// The command that scrolls the rows `start..end` down by `amount`.
    pub fn for_region(start: u16, end: u16, amount: u16) -> (r: ScrollDownInRegion)
        ensures
            r.first_row == start,
            r.last_row == if end == 0 {
                0
            } else {
                end - 1
            },
            r.lines_to_scroll == amount,
    {
        ScrollDownInRegion {
            first_row: start,
            last_row: end.saturating_sub(1),
            lines_to_scroll: amount,
        }
    }

    /// The ANSI bytes of the command.
    pub fn write_ansi(&self) -> (r: Vec<u8>)
        ensures
            r@ == scroll_sequence(
                self.first_row,
                self.last_row,
                self.lines_to_scroll,
                SCROLL_DOWN,
            ),
            (r@.len() == 0) == (self.lines_to_scroll == 0),
    {
        proof {
            lemma_scroll_sequence_parts(
                self.first_row,
                self.last_row,
                self.lines_to_scroll,
                SCROLL_DOWN,
            );
        }
        scroll_bytes(self.first_row, self.last_row, self.lines_to_scroll, SCROLL_DOWN)
    }
}

/// The number that a run of ASCII digits spells, most significant first.
pub open spec fn digits_value(digits: Seq<u8>) -> int
    decreases digits.len(),
{
    if digits.len() == 0 {
        0
    } else {
        digits_value(digits.drop_last()) * 10 + (digits.last() - DIGIT_ZERO)
    }
}

/// `decimal(n)` is a non-empty run of ASCII digits that spells `n`, with no
/// leading zero unless `n` is zero.
pub proof fn lemma_decimal_spells(n: nat)
    ensures
        decimal(n).len() >= 1,
        forall|i: int|
            0 <= i < decimal(n).len() ==> DIGIT_ZERO <= #[trigger] decimal(n)[i] <= DIGIT_ZERO + 9,
        digits_value(decimal(n)) == n,
        decimal(n)[0] == DIGIT_ZERO ==> n == 0,
    decreases n,
{
    if n >= 10 {
        lemma_decimal_spells(n / 10);
        let d = decimal(n / 10);
        let s = decimal(n);
        assert(s == d.push((DIGIT_ZERO + n % 10) as u8));
        assert(s.drop_last() =~= d);
        assert(s[0] == d[0]);
        assert(s.last() == (DIGIT_ZERO + n % 10) as u8);
        assert(((DIGIT_ZERO + n % 10) as u8) as int == DIGIT_ZERO + n % 10);
        assert(n == (n / 10) * 10 + n % 10);
        assert(digits_value(s) == digits_value(d) * 10 + (s.last() - DIGIT_ZERO));
        assert forall|i: int| 0 <= i < s.len() implies DIGIT_ZERO <= #[trigger] s[i] <= DIGIT_ZERO
            + 9 by {
            if i < d.len() {
                assert(s[i] == d[i]);
            }
        }
    } else {
        let s = decimal(n);
        assert(s.drop_last() =~= Seq::<u8>::empty());
        assert(digits_value(Seq::<u8>::empty()) == 0);
        assert(s.last() == (DIGIT_ZERO + n) as u8);
        assert(((DIGIT_ZERO + n) as u8) as int == DIGIT_ZERO + n);
        assert(digits_value(s) == digits_value(s.drop_last()) * 10 + (s.last() - DIGIT_ZERO));
    }
}

/// A row counted from one: one more than the row counted from zero, but no
/// more than the largest `u16`.
pub proof fn lemma_one_based(row: u16)
    ensures
        one_based(row) == if row + 1 > u16::MAX {
            u16::MAX as int
        } else {
            row + 1
        },
{
}

/// Scrolling writes nothing exactly when it is by no line. Otherwise the
/// bytes are: the region's first and last rows counted from one, separated
/// by `;` and ended by `r`; then the number of lines and the direction; then
/// the sequence that resets the region; each part after an `ESC [`.
pub proof fn lemma_scroll_sequence_parts(first_row: u16, last_row: u16, lines: u16, direction: u8)
    ensures
        (scroll_sequence(first_row, last_row, lines, direction).len() == 0) == (lines == 0),
        lines > 0 ==> ({
            let s = scroll_sequence(first_row, last_row, lines, direction);
            let a = decimal(one_based(first_row));
            let b = decimal(one_based(last_row));
            let c = decimal(lines as nat);
            let al = a.len() as int;
            let bl = b.len() as int;
            let cl = c.len() as int;
            let k = al + bl + 4;
            &&& s.len() == k + cl + 6
            &&& s.subrange(0, 2) == seq![ESC, LEFT_BRACKET]
            &&& s.subrange(2, 2 + al) == a
            &&& s[2 + al] == SEMICOLON
            &&& s.subrange(3 + al, 3 + al + bl) == b
            &&& s[k - 1] == SET_REGION
            &&& s.subrange(k, k + 2) == seq![ESC, LEFT_BRACKET]
            &&& s.subrange(k + 2, k + 2 + cl) == c
            &&& s[k + 2 + cl] == direction
            &&& s.subrange(k + 3 + cl, s.len() as int) == seq![ESC, LEFT_BRACKET, SET_REGION]
        }),
{
    lemma_decimal_spells(one_based(first_row));
    lemma_decimal_spells(one_based(last_row));
    lemma_decimal_spells(lines as nat);
    if lines > 0 {
        let s = scroll_sequence(first_row, last_row, lines, direction);
        let a = decimal(one_based(first_row));
        let b = decimal(one_based(last_row));
        let c = decimal(lines as nat);
        let al = a.len() as int;
        let bl = b.len() as int;
        let cl = c.len() as int;
        let k = al + bl + 4;
        assert(s.subrange(0, 2) =~= seq![ESC, LEFT_BRACKET]);
        assert(s.subrange(2, 2 + al) =~= a);
        assert(s.subrange(3 + al, 3 + al + bl) =~= b);
        assert(s.subrange(k, k + 2) =~= seq![ESC, LEFT_BRACKET]);
        assert(s.subrange(k + 2, k + 2 + cl) =~= c);
        assert(s.subrange(k + 3 + cl, s.len() as int) =~= seq![ESC, LEFT_BRACKET, SET_REGION]);
    }
}

} // verus!
