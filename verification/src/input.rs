//! What a reader presses, and what a view does about it.
use vstd::prelude::*;

verus! {

/// One keystroke.
#[derive(Clone, Copy, Debug, PartialEq, Eq, Structural)]
pub enum Key {
    Char(char),
    Ctrl(char),
    Enter,
    Backspace,
    Esc,
    Up,
    Down,
    Left,
    Right,
    PageUp,
    PageDown,
    Home,
    End,
    /// The terminal changed size, to so many columns and rows.
    Resize(u16, u16),
    /// A key no view here answers.
    Other,
}

/// Whether a view goes on.
#[derive(Clone, Copy, Debug, PartialEq, Eq, Structural)]
pub enum Flow {
    Go,
    Stop,
}

/// How the window on a page of lines is moved.
#[derive(Clone, Copy, Debug, PartialEq, Eq, Structural)]
pub enum Move {
    Stay,
    /// So many rows back.
    Back(usize),
    /// So many rows on.
    On(usize),
    /// To the first line.
    Top,
    /// To the last line, and along with it as more arrive.
    Follow,
    /// To so many rows back from the last line.
    Land(usize),
}

} // verus!
