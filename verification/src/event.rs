//! Keys as the task report sees them.
use vstd::prelude::*;

verus! {

/// A key press, with the modifiers that the key bindings can tell apart.
#[derive(Debug, Clone, Copy, PartialEq, Eq, Hash, Structural)]
pub enum KeyCode {
    CtrlBackspace,
    CtrlDelete,
    AltBackspace,
    AltDelete,
    Backspace,
    Left,
    Right,
    Up,
    Down,
    Home,
    End,
    PageUp,
    PageDown,
    BackTab,
    Delete,
    Insert,
    F(u8),
    Char(char),
    Alt(char),
    Ctrl(char),
    Null,
    Esc,
    Tab,
    /// No operation: a binding set to this is disabled. No key press produces it.
    Nop,
}

} // verus!
