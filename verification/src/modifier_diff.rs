//! The attribute changes that take a terminal from one ratatui modifier to
//! another, and a model of what those attributes do to a terminal.
use vstd::prelude::*;

use crate::style::{
    CrosstermAttribute, Modifier, BOLD, CROSSED_OUT, DIM, HIDDEN, ITALIC, RAPID_BLINK, REVERSED,
    SLOW_BLINK, UNDERLINED,
};

verus! {

/// The difference between two modifiers, used to update the terminal with
/// only the attribute changes that are needed.
#[derive(Clone, Copy, Debug, PartialEq, Eq, Structural)]
pub struct ModifierDiff {
    pub from: Modifier,
    pub to: Modifier,
}

/// Whether every bit of `flag` is set in `bits` (ratatui's `contains`).
pub open spec fn has_bit(bits: u16, flag: u16) -> bool {
    bits & flag == flag
}

/// The one attribute `a` when `cond` holds, nothing otherwise.
pub open spec fn attr_if(cond: bool, a: CrosstermAttribute) -> Seq<CrosstermAttribute> {
    if cond {
        seq![a]
    } else {
        seq![]
    }
}

/// When bold or dim is removed: the normal intensity, which turns off both,
/// then dim and bold again where the target keeps them.
pub open spec fn intensity_part(removed: u16, to: u16) -> Seq<CrosstermAttribute> {
    if has_bit(removed, BOLD) || has_bit(removed, DIM) {
        seq![CrosstermAttribute::NormalIntensity] + attr_if(has_bit(to, DIM), CrosstermAttribute::Dim)
            + attr_if(has_bit(to, BOLD), CrosstermAttribute::Bold)
    } else {
        seq![]
    }
}

/// The attributes that turn off what `removed` holds.
pub open spec fn removal_part(removed: u16, to: u16) -> Seq<CrosstermAttribute> {
    attr_if(has_bit(removed, REVERSED), CrosstermAttribute::NoReverse) + intensity_part(removed, to)
        + attr_if(has_bit(removed, ITALIC), CrosstermAttribute::NoItalic) + attr_if(
        has_bit(removed, UNDERLINED),
        CrosstermAttribute::NoUnderline,
    ) + attr_if(has_bit(removed, CROSSED_OUT), CrosstermAttribute::NotCrossedOut) + attr_if(
        has_bit(removed, SLOW_BLINK) || has_bit(removed, RAPID_BLINK),
        CrosstermAttribute::NoBlink,
    )
}

/// The attributes that turn on what `added` holds.
pub open spec fn addition_part(added: u16) -> Seq<CrosstermAttribute> {
    attr_if(has_bit(added, REVERSED), CrosstermAttribute::Reverse) + attr_if(
        has_bit(added, BOLD),
        CrosstermAttribute::Bold,
    ) + attr_if(has_bit(added, ITALIC), CrosstermAttribute::Italic) + attr_if(
        has_bit(added, UNDERLINED),
        CrosstermAttribute::Underlined,
    ) + attr_if(has_bit(added, DIM), CrosstermAttribute::Dim) + attr_if(
        has_bit(added, CROSSED_OUT),
        CrosstermAttribute::CrossedOut,
    ) + attr_if(has_bit(added, SLOW_BLINK), CrosstermAttribute::SlowBlink) + attr_if(
        has_bit(added, RAPID_BLINK),
        CrosstermAttribute::RapidBlink,
    )
}

/// The attributes, in order, that change the modifier `from` into `to`:
/// first those that turn off what is removed, then those that turn on what
/// is added.
pub open spec fn diff_attributes(from: u16, to: u16) -> Seq<CrosstermAttribute> {
    removal_part(from & !to, to) + addition_part(to & !from)
}

fn push_if(out: &mut Vec<CrosstermAttribute>, cond: bool, a: CrosstermAttribute)
    ensures
        final(out)@ == old(out)@ + attr_if(cond, a),
{
    if cond {
        out.push(a);
    }
    proof {
        assert(final(out)@ =~= old(out)@ + attr_if(cond, a));
    }
}

fn push_intensity(out: &mut Vec<CrosstermAttribute>, removed: Modifier, to: Modifier)
    ensures
        final(out)@ == old(out)@ + intensity_part(removed.bits, to.bits),
{
    let ghost start = out@;
    let mut part: Vec<CrosstermAttribute> = Vec::new();
    if removed.contains(Modifier::from_bits(BOLD)) || removed.contains(Modifier::from_bits(DIM)) {
        // Bold and dim are both turned off by the normal intensity, so what
        // the target keeps of them is turned on again.
        part.push(CrosstermAttribute::NormalIntensity);
        push_if(&mut part, to.contains(Modifier::from_bits(DIM)), CrosstermAttribute::Dim);
        push_if(&mut part, to.contains(Modifier::from_bits(BOLD)), CrosstermAttribute::Bold);
    }
    proof {
        assert(part@ =~= intensity_part(removed.bits, to.bits));
    }
    out.append(&mut part);
}

fn removal_attributes(removed: Modifier, to: Modifier) -> (r: Vec<CrosstermAttribute>)
    ensures
        r@ == removal_part(removed.bits, to.bits),
{
    let mut out: Vec<CrosstermAttribute> = Vec::new();
    push_if(&mut out, removed.contains(Modifier::from_bits(REVERSED)), CrosstermAttribute::NoReverse);
    proof {
        assert(out@ =~= attr_if(has_bit(removed.bits, REVERSED), CrosstermAttribute::NoReverse));
    }
    push_intensity(&mut out, removed, to);
    push_if(&mut out, removed.contains(Modifier::from_bits(ITALIC)), CrosstermAttribute::NoItalic);
    push_if(
        &mut out,
        removed.contains(Modifier::from_bits(UNDERLINED)),
        CrosstermAttribute::NoUnderline,
    );
    push_if(
        &mut out,
        removed.contains(Modifier::from_bits(CROSSED_OUT)),
        CrosstermAttribute::NotCrossedOut,
    );
    push_if(
        &mut out,
        removed.contains(Modifier::from_bits(SLOW_BLINK)) || removed.contains(
            Modifier::from_bits(RAPID_BLINK),
        ),
        CrosstermAttribute::NoBlink,
    );
    out
}

fn addition_attributes(added: Modifier) -> (r: Vec<CrosstermAttribute>)
    ensures
        r@ == addition_part(added.bits),
{
    let mut out: Vec<CrosstermAttribute> = Vec::new();
    push_if(&mut out, added.contains(Modifier::from_bits(REVERSED)), CrosstermAttribute::Reverse);
    proof {
        assert(out@ =~= attr_if(has_bit(added.bits, REVERSED), CrosstermAttribute::Reverse));
    }
    push_if(&mut out, added.contains(Modifier::from_bits(BOLD)), CrosstermAttribute::Bold);
    push_if(&mut out, added.contains(Modifier::from_bits(ITALIC)), CrosstermAttribute::Italic);
    push_if(&mut out, added.contains(Modifier::from_bits(UNDERLINED)), CrosstermAttribute::Underlined);
    push_if(&mut out, added.contains(Modifier::from_bits(DIM)), CrosstermAttribute::Dim);
    push_if(&mut out, added.contains(Modifier::from_bits(CROSSED_OUT)), CrosstermAttribute::CrossedOut);
    push_if(&mut out, added.contains(Modifier::from_bits(SLOW_BLINK)), CrosstermAttribute::SlowBlink);
    push_if(&mut out, added.contains(Modifier::from_bits(RAPID_BLINK)), CrosstermAttribute::RapidBlink);
    out
}

impl ModifierDiff {
    /// The attributes to queue, in order, to change the terminal from the
    /// modifier `from` to the modifier `to`: first those that turn off what
    /// is removed, then those that turn on what is added.
    pub fn attributes(&self) -> (r: Vec<CrosstermAttribute>)
        ensures
            r@ == diff_attributes(self.from.bits, self.to.bits),
            all_needed(r@, self.from.bits, self.to.bits),
            !blink_lost(self.from.bits, self.to.bits) ==> apply_attributes(self.from.bits, r@) == (
            self.to.bits & managed_bits()) | (self.from.bits & !managed_bits()),
    {
        proof {
            lemma_diff_only_needed(self.from.bits, self.to.bits);
            if !blink_lost(self.from.bits, self.to.bits) {
                lemma_diff_reaches_target(self.from.bits, self.to.bits);
            }
        }
        let mut out = removal_attributes(self.from.difference(self.to), self.to);
        let mut added = addition_attributes(self.to.difference(self.from));
        out.append(&mut added);
        out
    }
}

/// What an attribute does to the modifier that a terminal shows: each
/// attribute turns its modifier on, each "no" attribute turns it off, the
/// normal intensity turns off bold and dim, `NoBlink` both blinks, `Reset`
/// everything; the attributes that no modifier stands for change nothing.
pub open spec fn apply_attribute(state: u16, a: CrosstermAttribute) -> u16 {
    match a {
        CrosstermAttribute::Reset => 0,
        CrosstermAttribute::Bold => state | BOLD,
        CrosstermAttribute::Dim => state | DIM,
        CrosstermAttribute::Italic => state | ITALIC,
        CrosstermAttribute::Underlined => state | UNDERLINED,
        CrosstermAttribute::DoubleUnderlined => state | UNDERLINED,
        CrosstermAttribute::Undercurled => state | UNDERLINED,
        CrosstermAttribute::Underdotted => state | UNDERLINED,
        CrosstermAttribute::Underdashed => state | UNDERLINED,
        CrosstermAttribute::SlowBlink => state | SLOW_BLINK,
        CrosstermAttribute::RapidBlink => state | RAPID_BLINK,
        CrosstermAttribute::Reverse => state | REVERSED,
        CrosstermAttribute::Hidden => state | HIDDEN,
        CrosstermAttribute::CrossedOut => state | CROSSED_OUT,
        CrosstermAttribute::NoBold => state & !BOLD,
        CrosstermAttribute::NormalIntensity => state & !(BOLD | DIM),
        CrosstermAttribute::NoItalic => state & !ITALIC,
        CrosstermAttribute::NoUnderline => state & !UNDERLINED,
        CrosstermAttribute::NoBlink => state & !(SLOW_BLINK | RAPID_BLINK),
        CrosstermAttribute::NoReverse => state & !REVERSED,
        CrosstermAttribute::NoHidden => state & !HIDDEN,
        CrosstermAttribute::NotCrossedOut => state & !CROSSED_OUT,
        _ => state,
    }
}

/// The modifier that a terminal shows after the attributes, in order.
pub open spec fn apply_attributes(state: u16, attrs: Seq<CrosstermAttribute>) -> u16
    decreases attrs.len(),
{
    if attrs.len() == 0 {
        state
    } else {
        apply_attributes(apply_attribute(state, attrs[0]), attrs.drop_first())
    }
}

/// The modifier bits that `diff_attributes` takes care of: all but `HIDDEN`.
pub open spec fn managed_bits() -> u16 {
    BOLD | DIM | ITALIC | UNDERLINED | SLOW_BLINK | RAPID_BLINK | REVERSED | CROSSED_OUT
}

/// A blink is removed while the other blink is kept: the `NoBlink` that
/// turns off the first turns off the second too, and it is not turned on
/// again.
pub open spec fn blink_lost(from: u16, to: u16) -> bool {
    (from & !to) & (SLOW_BLINK | RAPID_BLINK) != 0 && (from & to) & (SLOW_BLINK | RAPID_BLINK) != 0
}

proof fn lemma_apply_concat(state: u16, a: Seq<CrosstermAttribute>, b: Seq<CrosstermAttribute>)
    ensures
        apply_attributes(state, a + b) == apply_attributes(apply_attributes(state, a), b),
    decreases a.len(),
{
    if a.len() == 0 {
        assert(a + b =~= b);
    } else {
        assert((a + b).drop_first() =~= a.drop_first() + b);
        lemma_apply_concat(apply_attribute(state, a[0]), a.drop_first(), b);
    }
}

proof fn lemma_apply_one(state: u16, cond: bool, a: CrosstermAttribute)
    ensures
        apply_attributes(state, attr_if(cond, a)) == if cond {
            apply_attribute(state, a)
        } else {
            state
        },
{
    if cond {
        let s = attr_if(cond, a);
        assert(s[0] == a);
        assert(s.drop_first() =~= Seq::<CrosstermAttribute>::empty());
        assert(apply_attributes(apply_attribute(state, a), Seq::<CrosstermAttribute>::empty())
            == apply_attribute(state, a));
    }
}

/// Turns off `mask` when `cond` holds.
spec fn clear_if(state: u16, cond: bool, mask: u16) -> u16 {
    if cond {
        state & !mask
    } else {
        state
    }
}

/// Turns on `mask` when `cond` holds.
spec fn set_if(state: u16, cond: bool, mask: u16) -> u16 {
    if cond {
        state | mask
    } else {
        state
    }
}

spec fn intensity_effect(state: u16, removed: u16, to: u16) -> u16 {
    if has_bit(removed, BOLD) || has_bit(removed, DIM) {
        set_if(set_if(state & !(BOLD | DIM), has_bit(to, DIM), DIM), has_bit(to, BOLD), BOLD)
    } else {
        state
    }
}

spec fn removal_effect(state: u16, removed: u16, to: u16) -> u16 {
    clear_if(
        clear_if(
            clear_if(
                clear_if(
                    intensity_effect(
                        clear_if(state, has_bit(removed, REVERSED), REVERSED),
                        removed,
                        to,
                    ),
                    has_bit(removed, ITALIC),
                    ITALIC,
                ),
                has_bit(removed, UNDERLINED),
                UNDERLINED,
            ),
            has_bit(removed, CROSSED_OUT),
            CROSSED_OUT,
        ),
        has_bit(removed, SLOW_BLINK) || has_bit(removed, RAPID_BLINK),
        SLOW_BLINK | RAPID_BLINK,
    )
}

spec fn addition_effect(state: u16, added: u16) -> u16 {
    set_if(
        set_if(
            set_if(
                set_if(
                    set_if(
                        set_if(
                            set_if(
                                set_if(state, has_bit(added, REVERSED), REVERSED),
                                has_bit(added, BOLD),
                                BOLD,
                            ),
                            has_bit(added, ITALIC),
                            ITALIC,
                        ),
                        has_bit(added, UNDERLINED),
                        UNDERLINED,
                    ),
                    has_bit(added, DIM),
                    DIM,
                ),
                has_bit(added, CROSSED_OUT),
                CROSSED_OUT,
            ),
            has_bit(added, SLOW_BLINK),
            SLOW_BLINK,
        ),
        has_bit(added, RAPID_BLINK),
        RAPID_BLINK,
    )
}

proof fn lemma_intensity_effect(state: u16, removed: u16, to: u16)
    ensures
        apply_attributes(state, intensity_part(removed, to)) == intensity_effect(
            state,
            removed,
            to,
        ),
{
    if has_bit(removed, BOLD) || has_bit(removed, DIM) {
        let ni = seq![CrosstermAttribute::NormalIntensity];
        let d = attr_if(has_bit(to, DIM), CrosstermAttribute::Dim);
        let b = attr_if(has_bit(to, BOLD), CrosstermAttribute::Bold);
        lemma_apply_concat(state, ni + d, b);
        lemma_apply_concat(state, ni, d);
        lemma_apply_one(state, true, CrosstermAttribute::NormalIntensity);
        assert(ni == attr_if(true, CrosstermAttribute::NormalIntensity));
        let s1 = state & !(BOLD | DIM);
        lemma_apply_one(s1, has_bit(to, DIM), CrosstermAttribute::Dim);
        let s2 = set_if(s1, has_bit(to, DIM), DIM);
        lemma_apply_one(s2, has_bit(to, BOLD), CrosstermAttribute::Bold);
    } else {
        assert(intensity_part(removed, to) =~= Seq::<CrosstermAttribute>::empty());
    }
}

proof fn lemma_removal_effect(state: u16, removed: u16, to: u16)
    ensures
        apply_attributes(state, removal_part(removed, to)) == removal_effect(state, removed, to),
{
    let p1 = attr_if(has_bit(removed, REVERSED), CrosstermAttribute::NoReverse);
    let p2 = intensity_part(removed, to);
    let p3 = attr_if(has_bit(removed, ITALIC), CrosstermAttribute::NoItalic);
    let p4 = attr_if(has_bit(removed, UNDERLINED), CrosstermAttribute::NoUnderline);
    let p5 = attr_if(has_bit(removed, CROSSED_OUT), CrosstermAttribute::NotCrossedOut);
    let p6 = attr_if(
        has_bit(removed, SLOW_BLINK) || has_bit(removed, RAPID_BLINK),
        CrosstermAttribute::NoBlink,
    );
    lemma_apply_concat(state, p1 + p2 + p3 + p4 + p5, p6);
    lemma_apply_concat(state, p1 + p2 + p3 + p4, p5);
    lemma_apply_concat(state, p1 + p2 + p3, p4);
    lemma_apply_concat(state, p1 + p2, p3);
    lemma_apply_concat(state, p1, p2);
    lemma_apply_one(state, has_bit(removed, REVERSED), CrosstermAttribute::NoReverse);
    let s1 = clear_if(state, has_bit(removed, REVERSED), REVERSED);
    lemma_intensity_effect(s1, removed, to);
    let s2 = intensity_effect(s1, removed, to);
    lemma_apply_one(s2, has_bit(removed, ITALIC), CrosstermAttribute::NoItalic);
    let s3 = clear_if(s2, has_bit(removed, ITALIC), ITALIC);
    lemma_apply_one(s3, has_bit(removed, UNDERLINED), CrosstermAttribute::NoUnderline);
    let s4 = clear_if(s3, has_bit(removed, UNDERLINED), UNDERLINED);
    lemma_apply_one(s4, has_bit(removed, CROSSED_OUT), CrosstermAttribute::NotCrossedOut);
    let s5 = clear_if(s4, has_bit(removed, CROSSED_OUT), CROSSED_OUT);
    lemma_apply_one(
        s5,
        has_bit(removed, SLOW_BLINK) || has_bit(removed, RAPID_BLINK),
        CrosstermAttribute::NoBlink,
    );
}

proof fn lemma_addition_effect(state: u16, added: u16)
    ensures
        apply_attributes(state, addition_part(added)) == addition_effect(state, added),
{
    let p1 = attr_if(has_bit(added, REVERSED), CrosstermAttribute::Reverse);
    let p2 = attr_if(has_bit(added, BOLD), CrosstermAttribute::Bold);
    let p3 = attr_if(has_bit(added, ITALIC), CrosstermAttribute::Italic);
    let p4 = attr_if(has_bit(added, UNDERLINED), CrosstermAttribute::Underlined);
    let p5 = attr_if(has_bit(added, DIM), CrosstermAttribute::Dim);
    let p6 = attr_if(has_bit(added, CROSSED_OUT), CrosstermAttribute::CrossedOut);
    let p7 = attr_if(has_bit(added, SLOW_BLINK), CrosstermAttribute::SlowBlink);
    let p8 = attr_if(has_bit(added, RAPID_BLINK), CrosstermAttribute::RapidBlink);
    lemma_apply_concat(state, p1 + p2 + p3 + p4 + p5 + p6 + p7, p8);
    lemma_apply_concat(state, p1 + p2 + p3 + p4 + p5 + p6, p7);
    lemma_apply_concat(state, p1 + p2 + p3 + p4 + p5, p6);
    lemma_apply_concat(state, p1 + p2 + p3 + p4, p5);
    lemma_apply_concat(state, p1 + p2 + p3, p4);
    lemma_apply_concat(state, p1 + p2, p3);
    lemma_apply_concat(state, p1, p2);
    lemma_apply_one(state, has_bit(added, REVERSED), CrosstermAttribute::Reverse);
    let s1 = set_if(state, has_bit(added, REVERSED), REVERSED);
    lemma_apply_one(s1, has_bit(added, BOLD), CrosstermAttribute::Bold);
    let s2 = set_if(s1, has_bit(added, BOLD), BOLD);
    lemma_apply_one(s2, has_bit(added, ITALIC), CrosstermAttribute::Italic);
    let s3 = set_if(s2, has_bit(added, ITALIC), ITALIC);
    lemma_apply_one(s3, has_bit(added, UNDERLINED), CrosstermAttribute::Underlined);
    let s4 = set_if(s3, has_bit(added, UNDERLINED), UNDERLINED);
    lemma_apply_one(s4, has_bit(added, DIM), CrosstermAttribute::Dim);
    let s5 = set_if(s4, has_bit(added, DIM), DIM);
    lemma_apply_one(s5, has_bit(added, CROSSED_OUT), CrosstermAttribute::CrossedOut);
    let s6 = set_if(s5, has_bit(added, CROSSED_OUT), CROSSED_OUT);
    lemma_apply_one(s6, has_bit(added, SLOW_BLINK), CrosstermAttribute::SlowBlink);
    let s7 = set_if(s6, has_bit(added, SLOW_BLINK), SLOW_BLINK);
    lemma_apply_one(s7, has_bit(added, RAPID_BLINK), CrosstermAttribute::RapidBlink);
}

proof fn lemma_effect_bits(state: u16, from: u16, to: u16)
    requires
        !blink_lost(from, to),
        state & managed_bits() == from & managed_bits(),
    ensures
        addition_effect(removal_effect(state, from & !to, to), to & !from) == (to & managed_bits())
            | (state & !managed_bits()),
{
    assert(addition_effect(removal_effect(state, from & !to, to), to & !from) == (to
        & managed_bits()) | (state & !managed_bits())) by (bit_vector)
        requires
            !blink_lost(from, to),
            state & managed_bits() == from & managed_bits(),
    ;
}

/// The attributes of the difference between `from` and `to`, applied to a
/// terminal that shows `from` on the modifiers they manage, make it show `to`
/// there and leave the other bits alone; except where a blink is removed
/// while the other blink is kept.
pub proof fn lemma_diff_applies_to_managed(state: u16, from: u16, to: u16)
    requires
        !blink_lost(from, to),
        state & managed_bits() == from & managed_bits(),
    ensures
        apply_attributes(state, diff_attributes(from, to)) == (to & managed_bits()) | (state
            & !managed_bits()),
{
    lemma_apply_concat(state, removal_part(from & !to, to), addition_part(to & !from));
    lemma_removal_effect(state, from & !to, to);
    lemma_addition_effect(removal_effect(state, from & !to, to), to & !from);
    lemma_effect_bits(state, from, to);
}

/// Applied to a terminal that shows the modifier `from`, the attributes of
/// the difference make it show `to` on every modifier that they manage, and
/// leave the others (`HIDDEN` and bits that name no modifier) as they were;
/// except where a blink is removed while the other blink is kept, which the
/// difference does not restore.
pub proof fn lemma_diff_reaches_target(from: u16, to: u16)
    requires
        !blink_lost(from, to),
    ensures
        apply_attributes(from, diff_attributes(from, to)) == (to & managed_bits()) | (from
            & !managed_bits()),
{
    lemma_diff_applies_to_managed(from, from, to);
}

/// The difference between a modifier and itself queues no attribute.
pub proof fn lemma_diff_of_equal_is_empty(m: u16)
    ensures
        diff_attributes(m, m).len() == 0,
{
    assert(m & !m == 0) by (bit_vector);
    assert(!has_bit(0, REVERSED) && !has_bit(0, BOLD) && !has_bit(0, DIM) && !has_bit(0, ITALIC)
        && !has_bit(0, UNDERLINED) && !has_bit(0, CROSSED_OUT) && !has_bit(0, SLOW_BLINK)
        && !has_bit(0, RAPID_BLINK)) by (bit_vector);
}

/// The modifier bits that an attribute turns off in the terminal model.
pub open spec fn turned_off(a: CrosstermAttribute) -> u16 {
    match a {
        CrosstermAttribute::NoReverse => REVERSED,
        CrosstermAttribute::NormalIntensity => BOLD | DIM,
        CrosstermAttribute::NoBold => BOLD,
        CrosstermAttribute::NoItalic => ITALIC,
        CrosstermAttribute::NoUnderline => UNDERLINED,
        CrosstermAttribute::NotCrossedOut => CROSSED_OUT,
        CrosstermAttribute::NoBlink => SLOW_BLINK | RAPID_BLINK,
        CrosstermAttribute::NoHidden => HIDDEN,
        _ => 0,
    }
}

/// The modifier bit that an attribute turns on in the terminal model.
pub open spec fn turned_on(a: CrosstermAttribute) -> u16 {
    match a {
        CrosstermAttribute::Bold => BOLD,
        CrosstermAttribute::Dim => DIM,
        CrosstermAttribute::Italic => ITALIC,
        CrosstermAttribute::Underlined => UNDERLINED,
        CrosstermAttribute::DoubleUnderlined => UNDERLINED,
        CrosstermAttribute::Undercurled => UNDERLINED,
        CrosstermAttribute::Underdotted => UNDERLINED,
        CrosstermAttribute::Underdashed => UNDERLINED,
        CrosstermAttribute::SlowBlink => SLOW_BLINK,
        CrosstermAttribute::RapidBlink => RAPID_BLINK,
        CrosstermAttribute::Reverse => REVERSED,
        CrosstermAttribute::Hidden => HIDDEN,
        CrosstermAttribute::CrossedOut => CROSSED_OUT,
        _ => 0,
    }
}

/// An attribute has a reason to be queued between `from` and `to`: it turns
/// off a modifier that `from` has and `to` lacks, or turns on one that `to`
/// has.
pub open spec fn needed(a: CrosstermAttribute, from: u16, to: u16) -> bool {
    turned_off(a) & (from & !to) != 0 || turned_on(a) & to != 0
}

/// Every attribute of the sequence has a reason to be queued.
pub open spec fn all_needed(s: Seq<CrosstermAttribute>, from: u16, to: u16) -> bool {
    forall|i: int| 0 <= i < s.len() ==> needed(#[trigger] s[i], from, to)
}

proof fn lemma_needed_bits(from: u16, to: u16)
    by (bit_vector)
    ensures
        has_bit(from & !to, REVERSED) ==> REVERSED & (from & !to) != 0,
        (has_bit(from & !to, BOLD) || has_bit(from & !to, DIM)) ==> (BOLD | DIM) & (from & !to)
            != 0,
        has_bit(to, DIM) ==> DIM & to != 0,
        has_bit(to, BOLD) ==> BOLD & to != 0,
        has_bit(from & !to, ITALIC) ==> ITALIC & (from & !to) != 0,
        has_bit(from & !to, UNDERLINED) ==> UNDERLINED & (from & !to) != 0,
        has_bit(from & !to, CROSSED_OUT) ==> CROSSED_OUT & (from & !to) != 0,
        (has_bit(from & !to, SLOW_BLINK) || has_bit(from & !to, RAPID_BLINK)) ==> (SLOW_BLINK
            | RAPID_BLINK) & (from & !to) != 0,
        has_bit(to & !from, REVERSED) ==> REVERSED & to != 0,
        has_bit(to & !from, BOLD) ==> BOLD & to != 0,
        has_bit(to & !from, ITALIC) ==> ITALIC & to != 0,
        has_bit(to & !from, UNDERLINED) ==> UNDERLINED & to != 0,
        has_bit(to & !from, DIM) ==> DIM & to != 0,
        has_bit(to & !from, CROSSED_OUT) ==> CROSSED_OUT & to != 0,
        has_bit(to & !from, SLOW_BLINK) ==> SLOW_BLINK & to != 0,
        has_bit(to & !from, RAPID_BLINK) ==> RAPID_BLINK & to != 0,
{
}

proof fn lemma_needed_concat(
    a: Seq<CrosstermAttribute>,
    b: Seq<CrosstermAttribute>,
    from: u16,
    to: u16,
)
    requires
        all_needed(a, from, to),
        all_needed(b, from, to),
    ensures
        all_needed(a + b, from, to),
{
    assert forall|i: int| 0 <= i < (a + b).len() implies needed(#[trigger] (a + b)[i], from, to) by {
        if i < a.len() {
            assert((a + b)[i] == a[i]);
        } else {
            assert((a + b)[i] == b[i - a.len()]);
        }
    }
}

proof fn lemma_needed_one(cond: bool, x: CrosstermAttribute, from: u16, to: u16)
    requires
        cond ==> needed(x, from, to),
    ensures
        all_needed(attr_if(cond, x), from, to),
{
    if cond {
        assert(attr_if(cond, x)[0] == x);
    }
}

proof fn lemma_intensity_needed(from: u16, to: u16)
    ensures
        all_needed(intensity_part(from & !to, to), from, to),
{
    lemma_needed_bits(from, to);
    let removed = from & !to;
    if has_bit(removed, BOLD) || has_bit(removed, DIM) {
        let ni = seq![CrosstermAttribute::NormalIntensity];
        assert(ni[0] == CrosstermAttribute::NormalIntensity);
        let d = attr_if(has_bit(to, DIM), CrosstermAttribute::Dim);
        let b = attr_if(has_bit(to, BOLD), CrosstermAttribute::Bold);
        lemma_needed_one(has_bit(to, DIM), CrosstermAttribute::Dim, from, to);
        lemma_needed_one(has_bit(to, BOLD), CrosstermAttribute::Bold, from, to);
        lemma_needed_concat(ni, d, from, to);
        lemma_needed_concat(ni + d, b, from, to);
    } else {
        assert(intensity_part(removed, to).len() == 0);
    }
}

proof fn lemma_removal_needed(from: u16, to: u16)
    ensures
        all_needed(removal_part(from & !to, to), from, to),
{
    lemma_needed_bits(from, to);
    lemma_intensity_needed(from, to);
    let removed = from & !to;
    let r1 = attr_if(has_bit(removed, REVERSED), CrosstermAttribute::NoReverse);
    let r2 = intensity_part(removed, to);
    let r3 = attr_if(has_bit(removed, ITALIC), CrosstermAttribute::NoItalic);
    let r4 = attr_if(has_bit(removed, UNDERLINED), CrosstermAttribute::NoUnderline);
    let r5 = attr_if(has_bit(removed, CROSSED_OUT), CrosstermAttribute::NotCrossedOut);
    let r6 = attr_if(
        has_bit(removed, SLOW_BLINK) || has_bit(removed, RAPID_BLINK),
        CrosstermAttribute::NoBlink,
    );
    lemma_needed_one(has_bit(removed, REVERSED), CrosstermAttribute::NoReverse, from, to);
    lemma_needed_one(has_bit(removed, ITALIC), CrosstermAttribute::NoItalic, from, to);
    lemma_needed_one(has_bit(removed, UNDERLINED), CrosstermAttribute::NoUnderline, from, to);
    lemma_needed_one(has_bit(removed, CROSSED_OUT), CrosstermAttribute::NotCrossedOut, from, to);
    lemma_needed_one(
        has_bit(removed, SLOW_BLINK) || has_bit(removed, RAPID_BLINK),
        CrosstermAttribute::NoBlink,
        from,
        to,
    );
    lemma_needed_concat(r1, r2, from, to);
    lemma_needed_concat(r1 + r2, r3, from, to);
    lemma_needed_concat(r1 + r2 + r3, r4, from, to);
    lemma_needed_concat(r1 + r2 + r3 + r4, r5, from, to);
    lemma_needed_concat(r1 + r2 + r3 + r4 + r5, r6, from, to);
}

proof fn lemma_addition_needed(from: u16, to: u16)
    ensures
        all_needed(addition_part(to & !from), from, to),
{
    lemma_needed_bits(from, to);
    let added = to & !from;
    let a1 = attr_if(has_bit(added, REVERSED), CrosstermAttribute::Reverse);
    let a2 = attr_if(has_bit(added, BOLD), CrosstermAttribute::Bold);
    let a3 = attr_if(has_bit(added, ITALIC), CrosstermAttribute::Italic);
    let a4 = attr_if(has_bit(added, UNDERLINED), CrosstermAttribute::Underlined);
    let a5 = attr_if(has_bit(added, DIM), CrosstermAttribute::Dim);
    let a6 = attr_if(has_bit(added, CROSSED_OUT), CrosstermAttribute::CrossedOut);
    let a7 = attr_if(has_bit(added, SLOW_BLINK), CrosstermAttribute::SlowBlink);
    let a8 = attr_if(has_bit(added, RAPID_BLINK), CrosstermAttribute::RapidBlink);
    lemma_needed_one(has_bit(added, REVERSED), CrosstermAttribute::Reverse, from, to);
    lemma_needed_one(has_bit(added, BOLD), CrosstermAttribute::Bold, from, to);
    lemma_needed_one(has_bit(added, ITALIC), CrosstermAttribute::Italic, from, to);
    lemma_needed_one(has_bit(added, UNDERLINED), CrosstermAttribute::Underlined, from, to);
    lemma_needed_one(has_bit(added, DIM), CrosstermAttribute::Dim, from, to);
    lemma_needed_one(has_bit(added, CROSSED_OUT), CrosstermAttribute::CrossedOut, from, to);
    lemma_needed_one(has_bit(added, SLOW_BLINK), CrosstermAttribute::SlowBlink, from, to);
    lemma_needed_one(has_bit(added, RAPID_BLINK), CrosstermAttribute::RapidBlink, from, to);
    lemma_needed_concat(a1, a2, from, to);
    lemma_needed_concat(a1 + a2, a3, from, to);
    lemma_needed_concat(a1 + a2 + a3, a4, from, to);
    lemma_needed_concat(a1 + a2 + a3 + a4, a5, from, to);
    lemma_needed_concat(a1 + a2 + a3 + a4 + a5, a6, from, to);
    lemma_needed_concat(a1 + a2 + a3 + a4 + a5 + a6, a7, from, to);
    lemma_needed_concat(a1 + a2 + a3 + a4 + a5 + a6 + a7, a8, from, to);
}

/// Every attribute of the difference between two modifiers turns off a
/// modifier that `from` has and `to` lacks, or turns on a modifier that `to`
/// has: the difference queues nothing without a reason.
pub proof fn lemma_diff_only_needed(from: u16, to: u16)
    ensures
        all_needed(diff_attributes(from, to), from, to),
{
    lemma_removal_needed(from, to);
    lemma_addition_needed(from, to);
    lemma_needed_concat(removal_part(from & !to, to), addition_part(to & !from), from, to);
}

} // verus!
