use vellum_core::actions::{Action, ActionResult};
use vellum_core::application::{Application, KeyOutcome};
use vellum_core::cursor::Cursor;
use vellum_core::keys::{action_for_key, Key, KeyPress, Modifiers};

fn app_with(text: &str) -> Application {
    let mut app = Application::new((80, 24));
    assert!(app.editor.write(text, 0).is_ok());
    app.editor.set_cursor_pos(0);
    app
}

fn plain(key: Key) -> KeyPress {
    KeyPress { key, modifiers: Modifiers::Plain }
}

#[test]
fn new_application_is_empty() {
    let app = Application::new((80, 24));
    assert_eq!(app.view_size, (80, 24));
    assert_eq!(app.editor.contents.char_count(), 0);
    assert_eq!(app.editor.cursor, Cursor::new());
}

#[test]
fn exit_is_answered_by_exited() {
    let mut app = app_with("abc");
    assert_eq!(app.execute_action(Action::Exit), ActionResult::Exited);
    assert_eq!(app.editor.cursor.pos, 0);
}

#[test]
fn cursor_moves_report_the_new_place() {
    let mut app = app_with("ab\ncd");
    assert_eq!(
        app.execute_action(Action::ShiftCursorRight),
        ActionResult::CursorShifted { line: 0, col: 1, idx: 1 }
    );
    assert_eq!(
        app.execute_action(Action::ShiftCursorDown),
        ActionResult::CursorShifted { line: 1, col: 1, idx: 4 }
    );
    assert_eq!(
        app.execute_action(Action::ShiftCursorLeft),
        ActionResult::CursorShifted { line: 1, col: 0, idx: 3 }
    );
    assert_eq!(
        app.execute_action(Action::ShiftCursorUp),
        ActionResult::CursorShifted { line: 0, col: 0, idx: 0 }
    );
}

#[test]
fn cursor_moves_that_go_nowhere_report_null() {
    let mut app = app_with("ab\ncd");
    assert_eq!(app.execute_action(Action::ShiftCursorLeft), ActionResult::Null);
    assert_eq!(app.execute_action(Action::ShiftCursorUp), ActionResult::Null);
    app.editor.set_cursor_pos(5);
    assert_eq!(app.execute_action(Action::ShiftCursorRight), ActionResult::Null);
    assert_eq!(app.execute_action(Action::ShiftCursorDown), ActionResult::Null);
    assert_eq!(app.editor.cursor.pos, 5);
}

#[test]
fn other_actions_are_unhandled() {
    let mut app = app_with("ab\ncd");
    app.editor.set_cursor_pos(2);
    for action in [
        Action::ShiftCursorDocStart,
        Action::ShiftCursorDocEnd,
        Action::ShiftCursorLineStart,
        Action::ShiftCursorLineEnd,
        Action::ShiftCursorTokenStart,
        Action::ShiftCursorTokenEnd,
        Action::Save,
        Action::Open,
        Action::Close,
        Action::Delete,
        Action::DeleteLine,
        Action::Insert,
        Action::Cut,
        Action::Copy,
        Action::Paste,
        Action::Undo,
        Action::Redo,
        Action::Select,
        Action::SelectAll,
        Action::Bold,
        Action::Italic,
        Action::Underline,
        Action::Strikethrough,
        Action::Indent,
        Action::Dedent,
        Action::Search,
    ] {
        assert_eq!(app.execute_action(action), ActionResult::Unhandled);
        assert_eq!(app.editor.cursor.pos, 2);
        assert_eq!(app.editor.contents.text(), "ab\ncd");
    }
}

#[test]
fn key_bindings() {
    assert_eq!(
        action_for_key(KeyPress { key: Key::Char('q'), modifiers: Modifiers::Control }),
        Some(Action::Exit)
    );
    assert_eq!(action_for_key(plain(Key::Char('q'))), None);
    assert_eq!(
        action_for_key(KeyPress { key: Key::Char('x'), modifiers: Modifiers::Control }),
        None
    );
    assert_eq!(action_for_key(plain(Key::Up)), Some(Action::ShiftCursorUp));
    assert_eq!(action_for_key(plain(Key::Down)), Some(Action::ShiftCursorDown));
    assert_eq!(action_for_key(plain(Key::Left)), Some(Action::ShiftCursorLeft));
    assert_eq!(action_for_key(plain(Key::Right)), Some(Action::ShiftCursorRight));
    assert_eq!(action_for_key(plain(Key::Home)), None);
    assert_eq!(action_for_key(plain(Key::Other)), None);
    assert_eq!(action_for_key(KeyPress { key: Key::Up, modifiers: Modifiers::Control }), None);
    assert_eq!(action_for_key(KeyPress { key: Key::Up, modifiers: Modifiers::Other }), None);
}

#[test]
fn key_presses_drive_the_cursor() {
    let mut app = app_with("ab\ncd");
    assert_eq!(app.process_keypress(plain(Key::Right)), KeyOutcome::MoveTo { line: 0, col: 1 });
    assert_eq!(app.process_keypress(plain(Key::Down)), KeyOutcome::MoveTo { line: 1, col: 1 });
    assert_eq!(app.process_keypress(plain(Key::Down)), KeyOutcome::Stay);
    assert_eq!(app.process_keypress(plain(Key::PageUp)), KeyOutcome::Stay);
    assert_eq!(app.process_keypress(plain(Key::Char('a'))), KeyOutcome::Stay);
    assert_eq!(app.editor.cursor.pos, 4);
    assert_eq!(
        app.process_keypress(KeyPress { key: Key::Char('q'), modifiers: Modifiers::Control }),
        KeyOutcome::Quit
    );
    assert_eq!(app.editor.cursor.pos, 4);
}
