//! What a plain terminal front end shows: the text queued for the terminal,
//! the rows of an empty screen, and a cursor that moves within the screen.

use crate::keys::{Key, KeyPress, Modifiers};
use crate::strings::{push_char, text_of_bytes};
use vstd::prelude::*;
use vstd::string::{StrSliceExecFns, StringExecFns};
use vstd::utf8::{decode_utf8, valid_utf8};

verus! {

/// Text queued for the terminal.
pub struct EditorContents {
    pub content: String,
}

impl View for EditorContents {
    type V = Seq<char>;

    open spec fn view(&self) -> Seq<char> {
        self.content@
    }
}

/// The banner shown on an empty screen.
pub open spec fn banner() -> Seq<char> {
    "Flow Editor --- Version 1"@
}

/// `k` spaces.
pub open spec fn spaces(k: nat) -> Seq<char> {
    Seq::new(k, |i: int| ' ')
}

/// The row that shows the banner on a screen `cols` wide: the banner, cut to
/// the width of the screen, behind a margin of half the room that is left.
/// The margin begins with `~`.
pub open spec fn banner_row(cols: int) -> Seq<char> {
    let shown = banner().take(if cols < banner().len() { cols } else { banner().len() as int });
    let margin = (cols - shown.len()) / 2;
    if margin > 0 {
        seq!['~'] + spaces((margin - 1) as nat) + shown
    } else {
        shown
    }
}

/// Row `row` of an empty screen of `rows` by `cols`: the banner a third of
/// the way down, `~` everywhere else.
pub open spec fn row_text(row: int, rows: int, cols: int) -> Seq<char> {
    if row == rows / 3 {
        banner_row(cols)
    } else {
        seq!['~']
    }
}

impl EditorContents {
    /// No text.
    pub fn new() -> (contents: Self)
        ensures
            contents@ == Seq::<char>::empty(),
    {
        Self { content: String::new() }
    }

    /// Appends one character.
    pub fn push(&mut self, c: char)
        ensures
            final(self)@ == old(self)@.push(c),
    {
        push_char(&mut self.content, c)
    }

    /// Appends a string.
    pub fn push_str(&mut self, s: &str)
        ensures
            final(self)@ == old(self)@ + s@,
    {
        self.content.append(s)
    }

    /// Appends the text that `buf` encodes and gives the number of bytes taken,
    /// which is all of them. Takes nothing when `buf` is not valid UTF-8.
    pub fn write_bytes(&mut self, buf: &[u8]) -> (taken: Option<usize>)
        ensures
            taken is Some <==> valid_utf8(buf@),
            taken matches Some(n) ==> n == buf@.len() && final(self)@ == old(self)@ + decode_utf8(
                buf@,
            ),
            taken is None ==> final(self)@ == old(self)@,
    {
        match text_of_bytes(buf) {
            Some(text) => {
                self.push_str(text);
                Some(buf.len())
            },
            None => None,
        }
    }

    /// Hands out the queued text and leaves none.
    pub fn take(&mut self) -> (text: String)
        ensures
            text@ == old(self)@,
            final(self)@ == Seq::<char>::empty(),
    {
        let mut text = String::new();
        std::mem::swap(&mut self.content, &mut text);
        text
    }

    /// Appends `k` spaces.
    fn push_spaces(&mut self, k: usize)
        ensures
            final(self)@ == old(self)@ + spaces(k as nat),
    {
        let mut i: usize = 0;
        assert(self@ == old(self)@ + spaces(0));
        while i < k
            invariant
                i <= k,
                self@ == old(self)@ + spaces(i as nat),
            decreases k - i,
        {
            self.push(' ');
            i += 1;
            assert(self@ == old(self)@ + spaces(i as nat));
        }
    }

    /// Appends row `row` of an empty screen of `rows` by `cols`.
    pub fn draw_row(&mut self, row: usize, rows: usize, cols: usize)
        ensures
            final(self)@ == old(self)@ + row_text(row as int, rows as int, cols as int),
    {
        if row == rows / 3 {
            let whole: &str = "Flow Editor --- Version 1";
            let len: usize = whole.unicode_len();
            let shown: &str = whole.substring_char(0, if cols < len { cols } else { len });
            let margin: usize = (cols - shown.unicode_len()) / 2;
            if margin != 0 {
                self.push('~');
                self.push_spaces(margin - 1);
            }
            self.push_str(shown);
            assert(self@ == old(self)@ + banner_row(cols as int));
        } else {
            self.push('~');
            assert(self@ == old(self)@ + seq!['~']);
        }
    }
}

/// A cursor on a screen of `screen_rows` by `screen_cols` cells.
#[derive(Clone, Copy, Debug, PartialEq, Eq, Structural)]
pub struct CursorController {
    pub x: usize,
    pub y: usize,
    pub screen_rows: usize,
    pub screen_cols: usize,
}

/// What a key asks of the screen cursor.
#[derive(Clone, Copy, Debug, PartialEq, Eq, Structural)]
pub enum ScreenCommand {
    /// End the session.
    Quit,
    /// Move the cursor once, as `Key` says.
    Move(Key),
    /// Move the cursor up or down, as `Key` says, once for each row of the
    /// screen.
    Page(Key),
    /// Nothing.
    Ignore,
}

/// The command bound to a key press: Control and `q` quits; a plain arrow,
/// Home or End key moves once; a plain PageUp or PageDown pages; nothing else
/// is bound.
pub open spec fn bound_command(press: KeyPress) -> ScreenCommand {
    match (press.key, press.modifiers) {
        (Key::Char(c), Modifiers::Control) => if c == 'q' {
            ScreenCommand::Quit
        } else {
            ScreenCommand::Ignore
        },
        (Key::Up, Modifiers::Plain) => ScreenCommand::Move(Key::Up),
        (Key::Down, Modifiers::Plain) => ScreenCommand::Move(Key::Down),
        (Key::Left, Modifiers::Plain) => ScreenCommand::Move(Key::Left),
        (Key::Right, Modifiers::Plain) => ScreenCommand::Move(Key::Right),
        (Key::Home, Modifiers::Plain) => ScreenCommand::Move(Key::Home),
        (Key::End, Modifiers::Plain) => ScreenCommand::Move(Key::End),
        (Key::PageUp, Modifiers::Plain) => ScreenCommand::Page(Key::Up),
        (Key::PageDown, Modifiers::Plain) => ScreenCommand::Page(Key::Down),
        _ => ScreenCommand::Ignore,
    }
}

/// The command bound to `press`.
pub fn command_for_key(press: KeyPress) -> (command: ScreenCommand)
    ensures
        command == bound_command(press),
{
    match press.modifiers {
        Modifiers::Control => match press.key {
            Key::Char(c) => if c == 'q' {
                ScreenCommand::Quit
            } else {
                ScreenCommand::Ignore
            },
            _ => ScreenCommand::Ignore,
        },
        Modifiers::Plain => match press.key {
            Key::Up => ScreenCommand::Move(Key::Up),
            Key::Down => ScreenCommand::Move(Key::Down),
            Key::Left => ScreenCommand::Move(Key::Left),
            Key::Right => ScreenCommand::Move(Key::Right),
            Key::Home => ScreenCommand::Move(Key::Home),
            Key::End => ScreenCommand::Move(Key::End),
            Key::PageUp => ScreenCommand::Page(Key::Up),
            Key::PageDown => ScreenCommand::Page(Key::Down),
            _ => ScreenCommand::Ignore,
        },
        Modifiers::Other => ScreenCommand::Ignore,
    }
}

impl CursorController {
    /// The cursor is on the screen; on a screen without rows or columns it
    /// is at 0.
    pub open spec fn wf(self) -> bool {
        &&& self.x < self.screen_cols || (self.screen_cols == 0 && self.x == 0)
        &&& self.y < self.screen_rows || (self.screen_rows == 0 && self.y == 0)
    }

    /// Whether the cursor can be moved as `direction` says: the key is one
    /// that moves the cursor, and the screen has a cell in that direction to
    /// speak of.
    pub open spec fn can_move(self, direction: Key) -> bool {
        match direction {
            Key::Up | Key::Left | Key::Home => true,
            Key::Down => self.screen_rows > 0,
            Key::Right | Key::End => self.screen_cols > 0,
            _ => false,
        }
    }

    /// The cursor after one move as `direction` says: one cell up, left, down
    /// or right, unless it is at that edge of the screen already; to the
    /// first column for Home and to the last for End.
    pub open spec fn moved(self, direction: Key) -> CursorController {
        match direction {
            Key::Up => CursorController { y: if self.y == 0 { 0 } else { (self.y - 1) as usize }, ..self },
            Key::Left => CursorController { x: if self.x == 0 { 0 } else { (self.x - 1) as usize }, ..self },
            Key::Down => CursorController {
                y: if self.y == self.screen_rows - 1 {
                    self.y
                } else {
                    (self.y + 1) as usize
                },
                ..self
            },
            Key::Right => CursorController {
                x: if self.x == self.screen_cols - 1 {
                    self.x
                } else {
                    (self.x + 1) as usize
                },
                ..self
            },
            Key::Home => CursorController { x: 0, ..self },
            Key::End => CursorController { x: (self.screen_cols - 1) as usize, ..self },
            _ => self,
        }
    }

    /// The cursor after `times` moves as `direction` says.
    pub open spec fn moved_times(self, direction: Key, times: nat) -> CursorController
        decreases times,
    {
        if times == 0 {
            self
        } else {
            self.moved(direction).moved_times(direction, (times - 1) as nat)
        }
    }

    /// A cursor in the top left corner of a screen of the given width and
    /// height.
    pub fn new(win_size: (usize, usize)) -> (cursor: Self)
        ensures
            cursor == (CursorController { x: 0, y: 0, screen_rows: win_size.1, screen_cols: win_size.0 }),
            cursor.wf(),
    {
        Self { x: 0, y: 0, screen_rows: win_size.1, screen_cols: win_size.0 }
    }

    /// Whether the cursor is on the screen.
    pub fn is_on_screen(&self) -> (on: bool)
        ensures
            on == self.wf(),
    {
        (self.x < self.screen_cols || (self.screen_cols == 0 && self.x == 0)) && (self.y
            < self.screen_rows || (self.screen_rows == 0 && self.y == 0))
    }

    /// Whether the cursor can be moved as `direction` says.
    pub fn accepts(&self, direction: Key) -> (can: bool)
        ensures
            can == self.can_move(direction),
    {
        match direction {
            Key::Up | Key::Left | Key::Home => true,
            Key::Down => self.screen_rows > 0,
            Key::Right | Key::End => self.screen_cols > 0,
            _ => false,
        }
    }

    /// Moves the cursor once, as `direction` says.
    pub fn move_cursor(&mut self, direction: Key)
        requires
            old(self).wf(),
            old(self).can_move(direction),
        ensures
            *final(self) == old(self).moved(direction),
            final(self).wf(),
    {
        match direction {
            Key::Up => {
                if self.y != 0 {
                    self.y -= 1;
                }
            },
            Key::Left => {
                if self.x != 0 {
                    self.x -= 1;
                }
            },
            Key::Down => {
                if self.y != self.screen_rows - 1 {
                    self.y += 1;
                }
            },
            Key::Right => {
                if self.x != self.screen_cols - 1 {
                    self.x += 1;
                }
            },
            Key::Home => {
                self.x = 0;
            },
            Key::End => {
                self.x = self.screen_cols - 1;
            },
            _ => {},
        }
    }

    /// Moves the cursor `times` times, as `direction` says.
    pub fn move_cursor_times(&mut self, direction: Key, times: usize)
        requires
            old(self).wf(),
            times > 0 ==> old(self).can_move(direction),
        ensures
            *final(self) == old(self).moved_times(direction, times as nat),
            final(self).wf(),
    {
        let mut left: usize = times;
        while left > 0
            invariant
                self.wf(),
                left <= times,
                times > 0 ==> self.can_move(direction),
                self.moved_times(direction, left as nat) == old(self).moved_times(
                    direction,
                    times as nat,
                ),
            decreases left,
        {
            self.move_cursor(direction);
            left -= 1;
        }
    }
}

} // verus!
