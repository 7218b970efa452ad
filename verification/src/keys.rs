use vstd::prelude::*;

verus! {

/// The key that was pressed, as the screens tell keys apart.
#[derive(PartialEq, Eq, Structural, Clone, Copy)]
pub enum KeyCode {
    Char(char),
    Enter,
    Esc,
    Tab,
    BackTab,
    Backspace,
    Up,
    Down,
    Left,
    Right,
    Home,
    End,
    PageUp,
    PageDown,
    Other,
}

/// A key press: the key and whether Control was held.
#[derive(PartialEq, Eq, Structural, Clone, Copy)]
pub struct KeyEvent {
    pub code: KeyCode,
    pub ctrl: bool,
}

} // verus!
