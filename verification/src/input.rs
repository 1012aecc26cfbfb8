//! Key presses as the interface sees them.
use vstd::prelude::*;

verus! {

/// The key that was pressed.
#[derive(Clone, Copy, Debug)]
pub enum Key {
    Up,
    Down,
    Left,
    Right,
    Home,
    End,
    Tab,
    BackTab,
    Enter,
    Esc,
    Backspace,
    Delete,
    Char(char),
    /// Any key that has no meaning here.
    Other,
}

/// A key together with the modifier keys that were held with it.
#[derive(Clone, Copy, Debug)]
pub struct KeyPress {
    pub code: Key,
    pub control: bool,
    pub super_key: bool,
    pub shift: bool,
}

impl KeyPress {
    /// The interrupt chord: `c` with Control or Super. It ends the session
    /// in every mode.
    pub open spec fn is_interrupt(self) -> bool {
        self.code == Key::Char('c') && (self.control || self.super_key)
    }

    /// A key without modifiers.
    pub fn plain(code: Key) -> (r: KeyPress)
        ensures
            r == (KeyPress { code, control: false, super_key: false, shift: false }),
    {
        KeyPress { code, control: false, super_key: false, shift: false }
    }

    /// Whether this is the interrupt chord.
    pub fn interrupts(&self) -> (b: bool)
        ensures
            b == self.is_interrupt(),
    {
        match self.code {
            Key::Char(c) => c == 'c' && (self.control || self.super_key),
            _ => false,
        }
    }
}

} // verus!
