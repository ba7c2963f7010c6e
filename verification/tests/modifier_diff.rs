use ratatui_notty::modifier_diff::ModifierDiff;
use ratatui_notty::style::{
    CrosstermAttribute, Modifier, BOLD, CROSSED_OUT, DIM, HIDDEN, ITALIC, RAPID_BLINK, REVERSED,
    SLOW_BLINK, UNDERLINED,
};

fn diff(from: u16, to: u16) -> Vec<CrosstermAttribute> {
    ModifierDiff { from: Modifier::from_bits(from), to: Modifier::from_bits(to) }.attributes()
}

/// What the attributes do to the modifier a terminal shows.
fn apply(mut state: u16, attrs: &[CrosstermAttribute]) -> u16 {
    for a in attrs {
        state = match a {
            CrosstermAttribute::Bold => state | BOLD,
            CrosstermAttribute::Dim => state | DIM,
            CrosstermAttribute::Italic => state | ITALIC,
            CrosstermAttribute::Underlined => state | UNDERLINED,
            CrosstermAttribute::SlowBlink => state | SLOW_BLINK,
            CrosstermAttribute::RapidBlink => state | RAPID_BLINK,
            CrosstermAttribute::Reverse => state | REVERSED,
            CrosstermAttribute::CrossedOut => state | CROSSED_OUT,
            CrosstermAttribute::NormalIntensity => state & !(BOLD | DIM),
            CrosstermAttribute::NoItalic => state & !ITALIC,
            CrosstermAttribute::NoUnderline => state & !UNDERLINED,
            CrosstermAttribute::NoBlink => state & !(SLOW_BLINK | RAPID_BLINK),
            CrosstermAttribute::NoReverse => state & !REVERSED,
            CrosstermAttribute::NotCrossedOut => state & !CROSSED_OUT,
            _ => panic!("unexpected attribute {:?}", a),
        };
    }
    state
}

#[test]
fn equal_modifiers_need_no_attribute() {
    assert!(diff(0, 0).is_empty());
    assert!(diff(BOLD | ITALIC | HIDDEN, BOLD | ITALIC | HIDDEN).is_empty());
}

#[test]
fn adding_modifiers_in_order() {
    assert_eq!(
        diff(0, BOLD | ITALIC | REVERSED),
        vec![CrosstermAttribute::Reverse, CrosstermAttribute::Bold, CrosstermAttribute::Italic]
    );
    assert_eq!(
        diff(0, 0b1_0111_1111),
        vec![
            CrosstermAttribute::Reverse,
            CrosstermAttribute::Bold,
            CrosstermAttribute::Italic,
            CrosstermAttribute::Underlined,
            CrosstermAttribute::Dim,
            CrosstermAttribute::CrossedOut,
            CrosstermAttribute::SlowBlink,
            CrosstermAttribute::RapidBlink,
        ]
    );
}

#[test]
fn removing_modifiers_in_order() {
    assert_eq!(
        diff(0b1_0111_1111, 0),
        vec![
            CrosstermAttribute::NoReverse,
            CrosstermAttribute::NormalIntensity,
            CrosstermAttribute::NoItalic,
            CrosstermAttribute::NoUnderline,
            CrosstermAttribute::NotCrossedOut,
            CrosstermAttribute::NoBlink,
        ]
    );
}

#[test]
fn removing_bold_keeps_dim() {
    assert_eq!(
        diff(BOLD | DIM, DIM),
        vec![CrosstermAttribute::NormalIntensity, CrosstermAttribute::Dim]
    );
}

#[test]
fn removing_dim_keeps_bold() {
    assert_eq!(
        diff(BOLD | DIM, BOLD),
        vec![CrosstermAttribute::NormalIntensity, CrosstermAttribute::Bold]
    );
}

#[test]
fn swapping_dim_for_bold() {
    assert_eq!(
        diff(DIM, BOLD),
        vec![
            CrosstermAttribute::NormalIntensity,
            CrosstermAttribute::Bold,
            CrosstermAttribute::Bold
        ]
    );
    assert_eq!(apply(DIM, &diff(DIM, BOLD)), BOLD);
}

#[test]
fn hidden_is_not_managed() {
    assert!(diff(HIDDEN, 0).is_empty());
    assert!(diff(0, HIDDEN).is_empty());
}

#[test]
fn diff_reaches_target_on_all_managed_pairs() {
    let managed: u16 = BOLD | DIM | ITALIC | UNDERLINED | SLOW_BLINK | RAPID_BLINK | REVERSED | CROSSED_OUT;
    let blinks = SLOW_BLINK | RAPID_BLINK;
    for from in 0u16..0x200 {
        for to in (0u16..0x200).step_by(7) {
            let lost = (from & !to) & blinks != 0 && (from & to) & blinks != 0;
            if lost {
                continue;
            }
            let attrs = diff(from, to);
            let expected = (to & managed) | (from & !managed);
            assert_eq!(apply(from, &attrs), expected, "from {:#b} to {:#b}", from, to);
        }
    }
}

#[test]
fn removed_blink_also_turns_off_kept_blink() {
    let attrs = diff(SLOW_BLINK | RAPID_BLINK, RAPID_BLINK);
    assert_eq!(attrs, vec![CrosstermAttribute::NoBlink]);
    assert_eq!(apply(SLOW_BLINK | RAPID_BLINK, &attrs), 0);
}

#[test]
fn bits_that_name_no_modifier_are_ignored() {
    assert!(diff(0x400, 0).is_empty());
    assert_eq!(diff(0xFE00, ITALIC), vec![CrosstermAttribute::Italic]);
}
