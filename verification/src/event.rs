//! Input notifications flowing from the input side into the UI side, and the
//! decoding of raw terminal input into them.

use vstd::prelude::*;

verus! {

/// A key on the keyboard, as far as the runtime tells them apart.
#[derive(Clone, Copy, Debug, PartialEq, Eq, Structural)]
pub enum KeyCode {
    Char(char),
    Up,
    Down,
    Left,
    Right,
    Enter,
    Esc,
    Backspace,
    Tab,
    Home,
    End,
    PageUp,
    PageDown,
    Delete,
    Insert,
    Function(u8),
}

/// The modifier keys held during a key press.
#[derive(Clone, Copy, Debug, PartialEq, Eq, Structural)]
pub struct KeyMods {
    pub shift: bool,
    pub ctrl: bool,
    pub alt: bool,
}

impl KeyMods {
    /// No modifier key held.
    pub fn empty() -> (mods: KeyMods)
        ensures
            mods == (KeyMods { shift: false, ctrl: false, alt: false }),
    {
        KeyMods { shift: false, ctrl: false, alt: false }
    }
}

/// One key press: the key and the modifier set held with it.
#[derive(Clone, Copy, Debug, PartialEq, Eq, Structural)]
pub struct KeyInput {
    pub code: KeyCode,
    pub mods: KeyMods,
}

/// The mouse button involved in a press, release or drag.
#[derive(Clone, Copy, Debug, PartialEq, Eq, Structural)]
pub enum MouseButton {
    Left,
    Right,
    Middle,
}

/// What the mouse did.
#[derive(Clone, Copy, Debug, PartialEq, Eq, Structural)]
pub enum MouseKind {
    Press(MouseButton),
    Release(MouseButton),
    Drag(MouseButton),
    Moved,
    ScrollUp,
    ScrollDown,
}

/// One mouse action with the cell it happened in.
#[derive(Clone, Copy, Debug, PartialEq, Eq, Structural)]
pub struct MouseInput {
    pub kind: MouseKind,
    pub column: u16,
    pub row: u16,
}

/// An input notification, produced by the input loop and consumed once by the
/// component: a key press, a mouse action, a terminal resize, or a timer tick.
#[derive(Clone, Copy, Debug, PartialEq, Eq, Structural)]
pub enum Event {
    Key(KeyInput),
    Mouse(MouseInput),
    Resize(u16, u16),
    Tick,
}

/// Whether the component meaningfully acted on an event (`Consumed`) or left
/// it for an enclosing component to see (`Propagate`). Advisory with a single
/// root component; part of the contract for future composite components.
#[derive(Clone, Copy, Debug, PartialEq, Eq, Structural)]
pub enum EventResult {
    Consumed,
    Propagate,
}

/// One raw item read from the terminal input source, reduced to the data the
/// runtime reads of it. `Other` stands for every raw item the runtime does not
/// recognize (focus changes, pasted text, and whatever a terminal adds next).
#[derive(Clone, Copy, Debug, PartialEq, Eq, Structural)]
pub enum RawInput {
    Key(KeyInput),
    Mouse(MouseInput),
    Resize(u16, u16),
    Other,
}

/// What [`decode_raw`] returns: recognized raw items become events one for
/// one; unrecognized ones are dropped.
pub open spec fn decode_spec(raw: RawInput) -> Option<Event> {
    match raw {
        RawInput::Key(key) => Some(Event::Key(key)),
        RawInput::Mouse(mouse) => Some(Event::Mouse(mouse)),
        RawInput::Resize(width, height) => Some(Event::Resize(width, height)),
        RawInput::Other => None,
    }
}

/// Decode one raw input item into the event to forward, or `None` for a raw
/// item that is not forwarded. Decode failures are thus swallowed: the input
/// loop simply sends nothing and carries on.
pub fn decode_raw(raw: RawInput) -> (event: Option<Event>)
    ensures
        event == decode_spec(raw),
{
    match raw {
        RawInput::Key(key) => Some(Event::Key(key)),
        RawInput::Mouse(mouse) => Some(Event::Mouse(mouse)),
        RawInput::Resize(width, height) => Some(Event::Resize(width, height)),
        RawInput::Other => None,
    }
}

} // verus!
