use ratatui_notty::scroll::{ScrollDownInRegion, ScrollUpInRegion};

#[test]
fn scroll_up_sequence() {
    let cmd = ScrollUpInRegion { first_row: 0, last_row: 9, lines_to_scroll: 3 };
    assert_eq!(cmd.write_ansi(), b"\x1b[1;10r\x1b[3S\x1b[r".to_vec());
}

#[test]
fn scroll_down_sequence() {
    let cmd = ScrollDownInRegion { first_row: 4, last_row: 120, lines_to_scroll: 12 };
    assert_eq!(cmd.write_ansi(), b"\x1b[5;121r\x1b[12T\x1b[r".to_vec());
}

#[test]
fn scrolling_by_zero_lines_writes_nothing() {
    let up = ScrollUpInRegion { first_row: 2, last_row: 5, lines_to_scroll: 0 };
    let down = ScrollDownInRegion { first_row: 2, last_row: 5, lines_to_scroll: 0 };
    assert!(up.write_ansi().is_empty());
    assert!(down.write_ansi().is_empty());
}

#[test]
fn scroll_rows_saturate() {
    let cmd = ScrollUpInRegion { first_row: 65535, last_row: 65535, lines_to_scroll: 65535 };
    assert_eq!(cmd.write_ansi(), b"\x1b[65535;65535r\x1b[65535S\x1b[r".to_vec());
}

#[test]
fn scroll_region_from_range() {
    let up = ScrollUpInRegion::for_region(3, 10, 2);
    assert_eq!(up, ScrollUpInRegion { first_row: 3, last_row: 9, lines_to_scroll: 2 });
    let down = ScrollDownInRegion::for_region(0, 0, 1);
    assert_eq!(down, ScrollDownInRegion { first_row: 0, last_row: 0, lines_to_scroll: 1 });
}
