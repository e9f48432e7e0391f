use vstd::prelude::*;

verus! {

/// Bit of [`KeyEvent::modifiers`] set while Shift is held.
pub const SHIFT: u8 = 0b0000_0001;

/// Bit of [`KeyEvent::modifiers`] set while Control is held.
pub const CONTROL: u8 = 0b0000_0010;

/// Bit of [`KeyEvent::modifiers`] set while Alt is held.
pub const ALT: u8 = 0b0000_0100;

/// Bit of [`KeyEvent::modifiers`] set while Super is held.
pub const SUPER: u8 = 0b0000_1000;

/// Bit of [`KeyEvent::modifiers`] set while Hyper is held.
pub const HYPER: u8 = 0b0001_0000;

/// Bit of [`KeyEvent::modifiers`] set while Meta is held.
pub const META: u8 = 0b0010_0000;

/// A key of the keyboard.
#[derive(Clone, Copy, Debug, PartialEq, Eq, Structural)]
pub enum KeyCode {
    Backspace,
    Enter,
    Left,
    Right,
    Up,
    Down,
    Home,
    End,
    PageUp,
    PageDown,
    Tab,
    BackTab,
    Delete,
    Insert,
    /// A function key, by number.
    F(u8),
    /// A key that types a character.
    Char(char),
    Null,
    Esc,
    /// Any other key.
    Other,
}

/// A key press, with the modifier keys held at the time.
#[derive(Clone, Copy, Debug, PartialEq, Eq, Structural)]
pub struct KeyEvent {
    pub code: KeyCode,
    /// The modifier keys held, as bits (`SHIFT`, `CONTROL`, ...).
    pub modifiers: u8,
}

/// A mouse button.
#[derive(Clone, Copy, Debug, PartialEq, Eq, Structural)]
pub enum MouseButton {
    Left,
    Right,
    Middle,
}

/// What the mouse did.
#[derive(Clone, Copy, Debug, PartialEq, Eq, Structural)]
pub enum MouseEventKind {
    Down(MouseButton),
    Up(MouseButton),
    Drag(MouseButton),
    Moved,
    ScrollDown,
    ScrollUp,
    ScrollLeft,
    ScrollRight,
}

/// A mouse action at a cell of the terminal.
#[derive(Clone, Copy, Debug, PartialEq, Eq, Structural)]
pub struct MouseEvent {
    pub kind: MouseEventKind,
    pub column: u16,
    pub row: u16,
    /// The modifier keys held, as bits (`SHIFT`, `CONTROL`, ...).
    pub modifiers: u8,
}

/// A change of the terminal's size: the new number of columns and rows.
#[derive(Clone, Copy, Debug, PartialEq, Eq, Structural)]
pub struct ResizeEvent(pub u16, pub u16);

impl KeyEvent {
    /// Return a new key event.
    pub fn new(code: KeyCode, modifiers: u8) -> (r: Self)
        ensures
            r == (KeyEvent { code, modifiers }),
    {
        KeyEvent { code, modifiers }
    }

    /// Return true if Control, and no other modifier key, is held.
    pub fn is_control(&self) -> (r: bool)
        ensures
            r == (self.modifiers == CONTROL),
    {
        self.modifiers == CONTROL
    }
}

} // verus!
