//! Key presses, as the application sees them.

use crate::actions::Action;
use vstd::prelude::*;

verus! {

/// A key.
#[derive(Clone, Copy, Debug, PartialEq, Eq, Structural)]
pub enum Key {
    Char(char),
    Up,
    Down,
    Left,
    Right,
    Home,
    End,
    PageUp,
    PageDown,
    /// Any other key.
    Other,
}

/// The modifier keys held with a key.
#[derive(Clone, Copy, Debug, PartialEq, Eq, Structural)]
pub enum Modifiers {
    /// None at all.
    Plain,
    /// Control alone.
    Control,
    /// Any other combination.
    Other,
}

/// A key pressed with its modifiers.
#[derive(Clone, Copy, Debug, PartialEq, Eq, Structural)]
pub struct KeyPress {
    pub key: Key,
    pub modifiers: Modifiers,
}

/// The action bound to a key press: Control and `q` ends the application, a
/// plain arrow key moves the cursor one step its way, and nothing else is
/// bound.
pub open spec fn bound_action(press: KeyPress) -> Option<Action> {
    match (press.key, press.modifiers) {
        (Key::Char(c), Modifiers::Control) => if c == 'q' {
            Some(Action::Exit)
        } else {
            None
        },
        (Key::Up, Modifiers::Plain) => Some(Action::ShiftCursorUp),
        (Key::Down, Modifiers::Plain) => Some(Action::ShiftCursorDown),
        (Key::Left, Modifiers::Plain) => Some(Action::ShiftCursorLeft),
        (Key::Right, Modifiers::Plain) => Some(Action::ShiftCursorRight),
        _ => None,
    }
}

/// The action bound to `press`, if any.
pub fn action_for_key(press: KeyPress) -> (action: Option<Action>)
    ensures
        action == bound_action(press),
{
    match press.modifiers {
        Modifiers::Control => match press.key {
            Key::Char(c) => if c == 'q' {
                Some(Action::Exit)
            } else {
                None
            },
            _ => None,
        },
        Modifiers::Plain => match press.key {
            Key::Up => Some(Action::ShiftCursorUp),
            Key::Down => Some(Action::ShiftCursorDown),
            Key::Left => Some(Action::ShiftCursorLeft),
            Key::Right => Some(Action::ShiftCursorRight),
            _ => None,
        },
        Modifiers::Other => None,
    }
}

} // verus!
