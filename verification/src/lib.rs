//! The decisions of a ratatui backend that draws through crossterm on a
//! terminal reached without a tty: color and modifier conversion, the
//! attribute changes between two modifiers, the command stream of a frame
//! and the escape sequences of scrolling regions.
pub mod backend;
pub mod command;
pub mod convert;
pub mod draw;
pub mod modifier_diff;
pub mod scroll;
pub mod style;
pub mod terminal;

pub use convert::{FromNotty, IntoNotty};
