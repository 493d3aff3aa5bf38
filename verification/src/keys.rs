//! Key presses, as the screens read them.

use vstd::prelude::*;

verus! {

/// The key that was pressed.
#[derive(Clone, Copy, Debug, PartialEq, Eq, Structural)]
pub enum KeyCode {
    Char(char),
    Esc,
    Backspace,
    Enter,
    Tab,
    BackTab,
    Up,
    Down,
    Left,
    Right,
    PageUp,
    PageDown,
    Other,
}

/// A key press, with whether Control was held.
#[derive(Clone, Copy, Debug, PartialEq, Eq, Structural)]
pub struct KeyPress {
    pub code: KeyCode,
    pub ctrl: bool,
}

/// The key is the character `c`.
pub open spec fn is_char(k: KeyPress, c: char) -> bool {
    k.code == KeyCode::Char(c)
}

/// The key is the character `c` (any modifiers).
pub fn char_is(k: KeyPress, c: char) -> (r: bool)
    ensures
        r == is_char(k, c),
{
    match k.code {
        KeyCode::Char(x) => x == c,
        _ => false,
    }
}

} // verus!
