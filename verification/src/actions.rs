//! The logical actions that an input source can ask of the application, and
//! what the application answers.

use vstd::prelude::*;

verus! {

/// An action asked of the application.
#[derive(Clone, Copy, Debug, PartialEq, Eq, Structural)]
pub enum Action {
    ShiftCursorLeft,
    ShiftCursorRight,
    ShiftCursorUp,
    ShiftCursorDown,
    ShiftCursorDocStart,
    ShiftCursorDocEnd,
    ShiftCursorLineStart,
    ShiftCursorLineEnd,
    ShiftCursorTokenStart,
    ShiftCursorTokenEnd,
    Save,
    Open,
    Close,
    Delete,
    DeleteLine,
    Insert,
    Cut,
    Copy,
    Paste,
    Undo,
    Redo,
    Select,
    SelectAll,
    Bold,
    Italic,
    Underline,
    Strikethrough,
    Indent,
    Dedent,
    Search,
    Exit,
}

/// What came of an action.
#[derive(Clone, Copy, Debug, PartialEq, Eq, Structural)]
pub enum ActionResult {
    /// The application was asked to end.
    Exited,
    /// The cursor moved, and is now at this line, column and index.
    CursorShifted { line: usize, col: usize, idx: usize },
    /// The action was carried out and changed nothing.
    Null,
    /// The application has no answer to this action.
    Unhandled,
}

} // verus!
