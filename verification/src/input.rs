//! Input events, as the widgets see them.

use vstd::prelude::*;

verus! {

/// A button of the mouse.
#[derive(Debug, Copy, Clone, PartialEq, Eq, Structural)]
pub enum MouseButton {
    Left,
    Right,
    Middle,
    /// Any further button, by its number.
    Other(u8),
}

/// Whether a button went down or came up.
#[derive(Debug, Copy, Clone, PartialEq, Eq, Structural)]
pub enum ElementState {
    Pressed,
    Released,
}

/// What an element did with a mouse button event.
#[derive(Debug, Copy, Clone, PartialEq, Eq, Structural)]
pub enum MouseInputProcessResult {
    /// The element did not use the event: others may.
    NotProcessed,
    /// The element used the event: no other element gets it.
    Processed,
    /// The element used the event and now receives what is typed.
    TakeKeyboardFocus,
}

} // verus!
