//! The conversions behind the backend's terminal operations other than
//! drawing: clearing, window sizes and appended lines.
use vstd::prelude::*;

use crate::command::Command;
use crate::convert::{FromNotty, IntoNotty};

verus! {

/// The part of the screen that ratatui asks to clear.
#[derive(Clone, Copy, Debug, PartialEq, Eq, Structural)]
pub enum ClearType {
    /// All cells of the display.
    All,
    /// From the cursor (inclusive) to the end of the display.
    AfterCursor,
    /// From the start of the display to the cursor (inclusive).
    BeforeCursor,
    /// The cursor's line.
    CurrentLine,
    /// From the cursor (inclusive) to the end of its line.
    UntilNewLine,
}

/// The part of the screen that crossterm clears.
#[derive(Clone, Copy, Debug, PartialEq, Eq, Structural)]
pub enum CrosstermClearType {
    All,
    Purge,
    FromCursorDown,
    FromCursorUp,
    CurrentLine,
    UntilNewLine,
}

/// The crossterm clear that does what ratatui asks.
pub open spec fn clear_type_into_crossterm(c: ClearType) -> CrosstermClearType {
    match c {
        ClearType::All => CrosstermClearType::All,
        ClearType::AfterCursor => CrosstermClearType::FromCursorDown,
        ClearType::BeforeCursor => CrosstermClearType::FromCursorUp,
        ClearType::CurrentLine => CrosstermClearType::CurrentLine,
        ClearType::UntilNewLine => CrosstermClearType::UntilNewLine,
    }
}

impl IntoNotty<CrosstermClearType> for ClearType {
    fn into_notty(self) -> (r: CrosstermClearType)
        ensures
            r == clear_type_into_crossterm(self),
    {
        match self {
            ClearType::All => CrosstermClearType::All,
            ClearType::AfterCursor => CrosstermClearType::FromCursorDown,
            ClearType::BeforeCursor => CrosstermClearType::FromCursorUp,
            ClearType::CurrentLine => CrosstermClearType::CurrentLine,
            ClearType::UntilNewLine => CrosstermClearType::UntilNewLine,
        }
    }
}

/// A width and a height.
#[derive(Clone, Copy, Debug, PartialEq, Eq, Structural)]
pub struct Size {
    pub width: u16,
    pub height: u16,
}

/// ratatui's size of a window: in characters and in pixels.
#[derive(Clone, Copy, Debug, PartialEq, Eq, Structural)]
pub struct WindowSize {
    pub columns_rows: Size,
    pub pixels: Size,
}

/// crossterm's size of a window.
#[derive(Clone, Copy, Debug, PartialEq, Eq, Structural)]
pub struct CrosstermWindowSize {
    pub rows: u16,
    pub columns: u16,
    pub width: u16,
    pub height: u16,
}

impl FromNotty<CrosstermWindowSize> for WindowSize {
    fn from_notty(value: CrosstermWindowSize) -> (r: WindowSize)
        ensures
            r.columns_rows.width == value.columns,
            r.columns_rows.height == value.rows,
            r.pixels.width == value.width,
            r.pixels.height == value.height,
    {
        let CrosstermWindowSize { columns, rows, width, height } = value;
        WindowSize {
            columns_rows: Size { width: columns, height: rows },
            pixels: Size { width, height },
        }
    }
}

/// Whether the command prints a newline.
pub open spec fn prints_newline(c: Command) -> bool {
    match c {
        Command::Print(s) => s@ == seq!['\n'],
        _ => false,
    }
}

/// The commands that append `n` lines: `n` prints of a newline.
pub fn append_lines_commands(n: u16) -> (r: Vec<Command>)
    ensures
        r@.len() == n,
        forall|i: int| 0 <= i < n ==> prints_newline(#[trigger] r@[i]),
{
    let newline = String::from_str("\n");
    proof {
        reveal_strlit("\n");
    }
    let mut out: Vec<Command> = Vec::new();
    let mut i: u16 = 0;
    while i < n
        invariant
            i <= n,
            newline@ == seq!['\n'],
            out@.len() == i,
            forall|j: int| 0 <= j < i ==> prints_newline(#[trigger] out@[j]),
        decreases n - i,
    {
        out.push(Command::Print(newline.clone()));
        i = i + 1;
    }
    out
}

} // verus!
