//! The application: one editor, driven by actions and key presses.

use crate::actions::{Action, ActionResult};
use crate::cursor::{shift_moves, shift_target, CursorModel, Direction, WrapMode};
use crate::editor::Editor;
use crate::keys::{action_for_key, bound_action, KeyPress};
use crate::text::{column_of, line_of};
use vstd::prelude::*;

verus! {

/// The application.
pub struct Application {
    pub editor: Editor,
    /// Width and height of the view, in character cells.
    pub view_size: (usize, usize),
}

/// What the terminal is to do after a key press.
#[derive(Clone, Copy, Debug, PartialEq, Eq, Structural)]
pub enum KeyOutcome {
    /// End the session.
    Quit,
    /// Show the cursor at this line and column.
    MoveTo { line: usize, col: usize },
    /// Nothing.
    Stay,
}

/// The direction in which an action moves the cursor, for the actions that
/// the application carries out as cursor moves.
pub open spec fn action_direction(a: Action) -> Option<Direction> {
    match a {
        Action::ShiftCursorUp => Some(Direction::Up),
        Action::ShiftCursorDown => Some(Direction::Down),
        Action::ShiftCursorLeft => Some(Direction::Left),
        Action::ShiftCursorRight => Some(Direction::Right),
        _ => None,
    }
}

/// The cursor after action `a` in document `s`: one step in the action's
/// direction, without wrapping, for a cursor move; unchanged for any other
/// action.
pub open spec fn cursor_after(s: Seq<char>, c: CursorModel, a: Action) -> CursorModel {
    match action_direction(a) {
        Some(dir) => shift_target(s, c, dir, 1, WrapMode::NoWrap),
        None => c,
    }
}

/// The answer to action `a` for a cursor `c` in document `s`.
pub open spec fn answers(s: Seq<char>, c: CursorModel, a: Action, result: ActionResult) -> bool {
    match action_direction(a) {
        Some(dir) => if shift_moves(s, c, dir, 1, WrapMode::NoWrap) {
            let to = cursor_after(s, c, a).pos;
            &&& result matches ActionResult::CursorShifted { line, col, idx }
            &&& idx == to
            &&& line == line_of(s, to)
            &&& col == column_of(s, to)
        } else {
            result == ActionResult::Null
        },
        None => if a == Action::Exit {
            result == ActionResult::Exited
        } else {
            result == ActionResult::Unhandled
        },
    }
}

/// What the key press `press` asks of the terminal, for a cursor `c` in
/// document `s`: to quit, for the key bound to `Exit`; to show the cursor at
/// its new place, for a key whose action moved it; nothing otherwise.
pub open spec fn asks(s: Seq<char>, c: CursorModel, press: KeyPress, outcome: KeyOutcome) -> bool {
    match bound_action(press) {
        Some(a) => match action_direction(a) {
            Some(dir) => if shift_moves(s, c, dir, 1, WrapMode::NoWrap) {
                let to = cursor_after(s, c, a).pos;
                &&& outcome matches KeyOutcome::MoveTo { line, col }
                &&& line == line_of(s, to)
                &&& col == column_of(s, to)
            } else {
                outcome == KeyOutcome::Stay
            },
            None => if a == Action::Exit {
                outcome == KeyOutcome::Quit
            } else {
                outcome == KeyOutcome::Stay
            },
        },
        None => outcome == KeyOutcome::Stay,
    }
}

impl Application {
    /// An application with an empty document, for a view of the given width
    /// and height.
    pub fn new(view_size: (usize, usize)) -> (app: Self)
        ensures
            app.editor.contents@ == Seq::<char>::empty(),
            app.editor.cursor@ == crate::cursor::initial_cursor(),
            app.view_size == view_size,
    {
        Self { editor: Editor::new(), view_size }
    }

    /// Moves the cursor one step in direction `dir`, without wrapping, and
    /// reports where it went, if it went anywhere.
    fn shift_once(&mut self, dir: Direction) -> (result: ActionResult)
        ensures
            final(self).editor.contents@ == old(self).editor.contents@,
            final(self).view_size == old(self).view_size,
            final(self).editor.cursor@ == shift_target(
                old(self).editor.contents@,
                old(self).editor.cursor@,
                dir,
                1,
                WrapMode::NoWrap,
            ),
            if shift_moves(
                old(self).editor.contents@,
                old(self).editor.cursor@,
                dir,
                1,
                WrapMode::NoWrap,
            ) {
                let to = final(self).editor.cursor@.pos;
                &&& result matches ActionResult::CursorShifted { line, col, idx }
                &&& idx == to
                &&& line == line_of(old(self).editor.contents@, to)
                &&& col == column_of(old(self).editor.contents@, to)
            } else {
                result == ActionResult::Null
            },
    {
        if self.editor.shift_cursor(dir, 1, WrapMode::NoWrap) {
            let at = self.editor.get_cursor_pos();
            ActionResult::CursorShifted { line: at.line, col: at.col, idx: at.idx }
        } else {
            ActionResult::Null
        }
    }

    /// Carries out action `a`.
    ///
    /// `Exit` is answered by `Exited`. The moves up, down, left and right
    /// shift the cursor by one, without wrapping, and answer with the place it
    /// went to, or with `Null` if it did not move. No other action is carried
    /// out: the answer is `Unhandled`, and nothing changes.
    pub fn execute_action(&mut self, a: Action) -> (result: ActionResult)
        ensures
            final(self).editor.contents@ == old(self).editor.contents@,
            final(self).view_size == old(self).view_size,
            final(self).editor.cursor@ == cursor_after(
                old(self).editor.contents@,
                old(self).editor.cursor@,
                a,
            ),
            answers(old(self).editor.contents@, old(self).editor.cursor@, a, result),
    {
        match a {
            Action::Exit => ActionResult::Exited,
            Action::ShiftCursorUp => self.shift_once(Direction::Up),
            Action::ShiftCursorDown => self.shift_once(Direction::Down),
            Action::ShiftCursorRight => self.shift_once(Direction::Right),
            Action::ShiftCursorLeft => self.shift_once(Direction::Left),
            _ => ActionResult::Unhandled,
        }
    }

    /// Answers a key press: carries out the action bound to the key, if there
    /// is one, and says what the terminal is to do. The key that ends the
    /// session is not passed on to the editor.
    pub fn process_keypress(&mut self, press: KeyPress) -> (outcome: KeyOutcome)
        ensures
            final(self).editor.contents@ == old(self).editor.contents@,
            final(self).view_size == old(self).view_size,
            final(self).editor.cursor@ == match bound_action(press) {
                Some(a) => cursor_after(old(self).editor.contents@, old(self).editor.cursor@, a),
                None => old(self).editor.cursor@,
            },
            asks(old(self).editor.contents@, old(self).editor.cursor@, press, outcome),
    {
        match action_for_key(press) {
            Some(Action::Exit) => KeyOutcome::Quit,
            Some(a) => {
                let answer = self.execute_action(a);
                match answer {
                    ActionResult::CursorShifted { line, col, idx } => KeyOutcome::MoveTo {
                        line,
                        col,
                    },
                    _ => KeyOutcome::Stay,
                }
            },
            None => KeyOutcome::Stay,
        }
    }
}

} // verus!
