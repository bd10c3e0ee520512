//! Terminal input as the screens see it: key presses with their modifier
//! bits, resizes and left mouse clicks.
use vstd::prelude::*;

verus! {

/// No modifier key held.
pub const MOD_NONE: u8 = 0;
/// Shift held.
pub const MOD_SHIFT: u8 = 1;
/// Control held.
pub const MOD_CONTROL: u8 = 2;
/// Alt held.
pub const MOD_ALT: u8 = 4;

/// A pressed key.
#[derive(Clone, Copy, Debug, PartialEq, Eq, Structural)]
pub enum Key {
    Char(char),
    Enter,
    Esc,
    Left,
    Right,
    Up,
    Down,
    Home,
    End,
    PageUp,
    PageDown,
    Backspace,
    Delete,
    F(u8),
    Other,
}

/// An input event. Key releases and repeats are `Other`.
#[derive(Clone, Copy, Debug, PartialEq, Eq, Structural)]
pub enum Event {
    /// A key press with the modifier bits held (`MOD_*`).
    Key(Key, u8),
    /// The terminal was resized to (columns, rows).
    Resize(u16, u16),
    /// The left mouse button went down on the given row.
    MouseDown(u16),
    Other,
}

} // verus!
