//! The editor: a document and the cursor in it, changed together.

use crate::cursor::{initial_cursor, landed, shift_moves, shift_target};
use crate::cursor::{Cursor, Direction, WrapMode};
use crate::document::{DocumentBuffer, DocumentError};
use crate::position::{clamp_index, is_position, DocumentPosition};
use crate::strings::text_of_bytes;
use vstd::prelude::*;
use vstd::utf8::{decode_utf8, encode_utf8, valid_utf8};

verus! {

/// A document with its cursor.
pub struct Editor {
    pub contents: DocumentBuffer,
    pub cursor: Cursor,
}

impl Editor {
    /// An editor on an empty document, the cursor at its start.
    pub fn new() -> (editor: Self)
        ensures
            editor.contents@ == Seq::<char>::empty(),
            editor.cursor@ == initial_cursor(),
    {
        Self { contents: DocumentBuffer::new(), cursor: Cursor::new() }
    }

    /// Inserts `text` in front of the character at `char_idx` and puts the
    /// cursor behind what was inserted. Fails, and changes nothing, when
    /// `char_idx` is past the end of the document.
    pub fn write(&mut self, text: &str, char_idx: usize) -> (done: Result<
        DocumentPosition,
        DocumentError,
    >)
        ensures
            done is Ok <==> char_idx <= old(self).contents@.len(),
            done matches Ok(pos) ==> {
                &&& final(self).contents@ == old(self).contents@.take(char_idx as int) + text@
                    + old(self).contents@.skip(char_idx as int)
                &&& final(self).cursor@ == landed(final(self).contents@, char_idx + text@.len())
                &&& is_position(final(self).contents@, char_idx + text@.len(), pos)
                &&& pos.idx == char_idx + text@.len()
            },
            done matches Err(e) ==> {
                &&& e == DocumentError::OutOfRange
                &&& final(self).contents@ == old(self).contents@
                &&& final(self).cursor == old(self).cursor
            },
    {
        let before: usize = self.contents.char_count();
        match self.contents.write(text, char_idx) {
            Ok(()) => {
                let after: usize = self.contents.char_count();
                Ok(self.set_cursor_pos(char_idx + (after - before)))
            },
            Err(e) => Err(e),
        }
    }

    /// Removes the characters from `start` up to, not including, `end`, and
    /// puts the cursor at `start`. Fails, and changes nothing, when the range
    /// is inverted or ends past the end of the document.
    pub fn delete(&mut self, start: usize, end: usize) -> (done: Result<
        DocumentPosition,
        DocumentError,
    >)
        ensures
            done is Ok <==> start <= end <= old(self).contents@.len(),
            done matches Ok(pos) ==> {
                &&& final(self).contents@ == old(self).contents@.take(start as int) + old(
                    self,
                ).contents@.skip(end as int)
                &&& final(self).cursor@ == landed(final(self).contents@, start as int)
                &&& is_position(final(self).contents@, start as int, pos)
                &&& pos.idx == start
            },
            done matches Err(e) ==> {
                &&& e == DocumentError::OutOfRange
                &&& final(self).contents@ == old(self).contents@
                &&& final(self).cursor == old(self).cursor
            },
    {
        match self.contents.delete(start, end) {
            Ok(()) => Ok(self.set_cursor_pos(start)),
            Err(e) => Err(e),
        }
    }

    /// The position of the cursor. A cursor past the end of the document
    /// counts as at its end.
    pub fn get_cursor_pos(&self) -> (pos: DocumentPosition)
        ensures
            is_position(self.contents@, self.cursor@.pos, pos),
    {
        self.contents.get_position(self.cursor.pos)
    }

    /// Puts the cursor at `char_idx`, or at the end of the document if
    /// `char_idx` lies past it, and gives the position it landed in.
    pub fn set_cursor_pos(&mut self, char_idx: usize) -> (pos: DocumentPosition)
        ensures
            final(self).contents@ == old(self).contents@,
            final(self).cursor@ == landed(
                final(self).contents@,
                clamp_index(final(self).contents@, char_idx as int),
            ),
            is_position(final(self).contents@, char_idx as int, pos),
    {
        self.cursor.set_pos(&self.contents, char_idx);
        self.get_cursor_pos()
    }

    /// Moves the cursor by `mag` in direction `dir` and says whether it moved;
    /// see [`Cursor::shift`].
    pub fn shift_cursor(&mut self, dir: Direction, mag: usize, wrap_mode: WrapMode) -> (moved: bool)
        ensures
            final(self).contents@ == old(self).contents@,
            final(self).cursor@ == shift_target(
                old(self).contents@,
                old(self).cursor@,
                dir,
                mag as nat,
                wrap_mode,
            ),
            moved == shift_moves(old(self).contents@, old(self).cursor@, dir, mag as nat, wrap_mode),
            mag > 0 ==> final(self).cursor.pos <= final(self).contents@.len(),
    {
        self.cursor.shift(&self.contents, dir, mag, wrap_mode)
    }

    /// Replaces the document by the one that `bytes` encode. Fails, and
    /// changes nothing, when the bytes are not valid UTF-8. The cursor is left
    /// where it is.
    pub fn load_document(&mut self, bytes: &[u8]) -> (done: Result<(), DocumentError>)
        ensures
            done is Ok <==> valid_utf8(bytes@),
            done is Ok ==> final(self).contents@ == decode_utf8(bytes@),
            done matches Err(e) ==> e == DocumentError::IoFailure && final(self).contents@ == old(
                self,
            ).contents@,
            final(self).cursor == old(self).cursor,
    {
        match DocumentBuffer::load(bytes) {
            Ok(doc) => {
                self.contents = doc;
                Ok(())
            },
            Err(e) => Err(e),
        }
    }

    /// Appends the text that `buf` encodes to the end of the document and
    /// gives the number of bytes taken, which is all of them. Takes nothing
    /// when `buf` is not valid UTF-8. The cursor is left where it is.
    pub fn write_bytes(&mut self, buf: &[u8]) -> (taken: Option<usize>)
        ensures
            taken is Some <==> valid_utf8(buf@),
            taken matches Some(n) ==> n == buf@.len() && final(self).contents@ == old(
                self,
            ).contents@ + decode_utf8(buf@),
            taken is None ==> final(self).contents@ == old(self).contents@,
            final(self).cursor == old(self).cursor,
    {
        match text_of_bytes(buf) {
            Some(text) => {
                let end: usize = self.contents.char_count();
                let ghost before = self.contents@;
                let done = self.contents.write(text, end);
                assert(before.take(end as int) == before);
                assert(before.skip(end as int) == Seq::<char>::empty());
                assert(self.contents@ == before + text@);
                Some(buf.len())
            },
            None => None,
        }
    }

    /// Hands out the text of the document and leaves the document empty. The
    /// cursor is left where it is.
    pub fn take_text(&mut self) -> (text: String)
        ensures
            text@ == old(self).contents@,
            final(self).contents@ == Seq::<char>::empty(),
            final(self).cursor == old(self).cursor,
    {
        let text = self.contents.text();
        self.contents = DocumentBuffer::new();
        text
    }

    /// The document as bytes: its characters in UTF-8.
    pub fn save_document(&self) -> (bytes: Vec<u8>)
        ensures
            bytes@ == encode_utf8(self.contents@),
    {
        self.contents.save()
    }
}

impl Default for Editor {
    fn default() -> (editor: Self)
        ensures
            editor.contents@ == Seq::<char>::empty(),
            editor.cursor@ == initial_cursor(),
    {
        Self::new()
    }
}

} // verus!
