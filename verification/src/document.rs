//! The document: a rope of characters with line, position and word queries,
//! insertion and deletion, and a byte-faithful way in and out.

use crate::encoding::{char_at_byte, starts_char};
use crate::encoding::{lemma_char_at_byte, lemma_char_at_byte_skip, lemma_char_at_byte_take};
use crate::encoding::{lemma_char_at_byte_unique, lemma_char_at_first_byte};
use crate::encoding::{lemma_utf8_offset_monotonic, lemma_utf8_offset_skip, lemma_utf8_offset_take};
use crate::position::{clamp_index, is_line, is_position};
use crate::position::{DocumentPosition, Line, PositionKind};
use crate::rope::{rope_from_bytes, rope_remove, rope_substring, rope_text, rope_to_bytes};
use crate::text;
use crate::text::{lemma_line_bounds, lemma_line_start, lemma_position_on_line};
use crate::text::lemma_starts_line_unique;
use crate::words::{first_later_offset, first_offset, last_offset, word_byte_offsets};
use crate::words::lemma_first_later_offset;
use crate::words::{pick_first_later_offset, pick_first_offset, pick_last_offset};
use crate::words::unicode_word_offsets;
use ropey::Rope;
use vstd::prelude::*;
use vstd::utf8::{decode_utf8, encode_utf8, valid_utf8};
use vstd::utf8::{decode_utf8_encode_utf8, encode_utf8_decode_utf8, encode_utf8_valid_utf8};

verus! {

/// Why an operation on a document failed.
#[derive(Clone, Copy, Debug, PartialEq, Eq, Structural)]
pub enum DocumentError {
    /// An index lies past the end of the document, or a range is inverted.
    OutOfRange,
    /// The bytes to load could not be taken in as text.
    IoFailure,
    /// An index would split what must stay whole. Characters are the unit of
    /// every index here, so no operation of this module gives this error.
    InvalidBoundary,
}

/// A text document.
pub struct DocumentBuffer {
    pub contents: Rope,
}

impl View for DocumentBuffer {
    type V = Seq<char>;

    open spec fn view(&self) -> Seq<char> {
        rope_text(self.contents)
    }
}

/// Where the word that is last before position `idx` starts, given the word
/// offsets of the text before `idx`; 0 if there is no word.
pub open spec fn token_before(s: Seq<char>, idx: int, offsets: Seq<usize>) -> int {
    match last_offset(offsets) {
        Some(o) => char_at_byte(s.take(clamp_index(s, idx)), o as int),
        None => 0,
    }
}

/// Where the first word starts that begins after position `idx`, given the
/// word offsets of the text from `idx` on; the length of the text if there is
/// no such word.
pub open spec fn token_after(s: Seq<char>, idx: int, offsets: Seq<usize>) -> int {
    if idx >= s.len() {
        s.len() as int
    } else {
        match first_later_offset(offsets) {
            Some(o) => idx + char_at_byte(s.skip(idx), o as int),
            None => s.len() as int,
        }
    }
}

/// Where the first word of the text starts, given the word offsets of the
/// text; the length of the text if there is no word.
pub open spec fn token_first(s: Seq<char>, offsets: Seq<usize>) -> int {
    match first_offset(offsets) {
        Some(o) => char_at_byte(s, o as int),
        None => s.len() as int,
    }
}

/// Start of the nearest word before position `idx` of `s`, or 0.
pub open spec fn prev_token(s: Seq<char>, idx: int) -> int {
    token_before(s, idx, word_byte_offsets(s.take(clamp_index(s, idx))))
}

/// Start of the nearest word after position `idx` of `s`, or the length of
/// `s`.
pub open spec fn next_token(s: Seq<char>, idx: int) -> int {
    token_after(s, idx, word_byte_offsets(s.skip(clamp_index(s, idx))))
}

/// Start of the first word of `s`, or the length of `s`.
pub open spec fn first_token(s: Seq<char>) -> int {
    token_first(s, word_byte_offsets(s))
}

/// Token starts are positions of the text; the one before `idx` is not after
/// it, the one after `idx` not before it.
pub proof fn lemma_token_bounds(s: Seq<char>, idx: int, offsets: Seq<usize>)
    requires
        0 <= idx,
    ensures
        0 <= token_before(s, idx, offsets) <= clamp_index(s, idx),
        clamp_index(s, idx) <= token_after(s, idx, offsets) <= s.len(),
        0 <= token_first(s, offsets) <= s.len(),
{
    let p = clamp_index(s, idx);
    if last_offset(offsets) is Some {
        lemma_char_at_byte(s.take(p), last_offset(offsets)->0 as int);
    }
    if idx < s.len() && first_later_offset(offsets) is Some {
        lemma_char_at_byte(s.skip(idx), first_later_offset(offsets)->0 as int);
    }
    if first_offset(offsets) is Some {
        lemma_char_at_byte(s, first_offset(offsets)->0 as int);
    }
}

/// Saving what was loaded gives the loaded bytes back, byte for byte: the
/// characters that valid UTF-8 bytes decode to encode to those bytes.
pub proof fn lemma_save_after_load(bytes: Seq<u8>)
    requires
        valid_utf8(bytes),
    ensures
        encode_utf8(decode_utf8(bytes)) == bytes,
{
    decode_utf8_encode_utf8(bytes);
}

/// Loading what was saved succeeds and gives the saved text back.
pub proof fn lemma_load_after_save(s: Seq<char>)
    ensures
        valid_utf8(encode_utf8(s)),
        decode_utf8(encode_utf8(s)) == s,
{
    encode_utf8_valid_utf8(s);
    encode_utf8_decode_utf8(s);
}

/// A token start found before a position lies strictly before it, when the
/// offsets are first bytes of characters of the text before the position.
pub proof fn lemma_token_before_is_before(s: Seq<char>, idx: int, offsets: Seq<usize>)
    requires
        0 < clamp_index(s, idx),
        forall|i: int|
            0 <= i < offsets.len() ==> starts_char(
                s.take(clamp_index(s, idx)),
                #[trigger] offsets[i] as int,
            ),
    ensures
        0 <= token_before(s, idx, offsets) < clamp_index(s, idx),
{
    if offsets.len() > 0 {
        let o = offsets[offsets.len() - 1];
        lemma_char_at_first_byte(s.take(clamp_index(s, idx)), o as int);
    }
}

/// A token start found after a position lies strictly after it, when the
/// offsets are first bytes of characters of the text from the position on.
pub proof fn lemma_token_after_is_after(s: Seq<char>, idx: int, offsets: Seq<usize>)
    requires
        0 <= idx < s.len(),
        forall|i: int|
            0 <= i < offsets.len() ==> starts_char(s.skip(idx), #[trigger] offsets[i] as int),
    ensures
        idx < token_after(s, idx, offsets) <= s.len(),
{
    lemma_first_later_offset(offsets);
    if first_later_offset(offsets) is Some {
        let o = first_later_offset(offsets)->0;
        let i = choose|i: int| 0 <= i < offsets.len() && offsets[i] == o;
        assert(starts_char(s.skip(idx), offsets[i] as int));
        lemma_char_at_first_byte(s.skip(idx), o as int);
    }
}

impl DocumentBuffer {
    /// An empty document.
    pub fn new() -> (doc: Self)
        ensures
            doc@ == Seq::<char>::empty(),
    {
        DocumentBuffer { contents: Rope::new() }
    }

    /// A document that holds `text`.
    pub fn from_string(text: &str) -> (doc: Self)
        ensures
            doc@ == text@,
    {
        DocumentBuffer { contents: Rope::from_str(text) }
    }

    /// Takes in a document from its bytes. Succeeds exactly when the bytes are
    /// valid UTF-8; the document then holds the characters they encode.
    pub fn load(bytes: &[u8]) -> (loaded: Result<Self, DocumentError>)
        ensures
            loaded is Ok <==> valid_utf8(bytes@),
            loaded matches Ok(doc) ==> doc@ == decode_utf8(bytes@),
            loaded matches Err(e) ==> e == DocumentError::IoFailure,
    {
        match rope_from_bytes(bytes) {
            Ok(rope) => Ok(DocumentBuffer { contents: rope }),
            Err(_) => Err(DocumentError::IoFailure),
        }
    }

    /// The document as bytes: its characters in UTF-8.
    pub fn save(&self) -> (bytes: Vec<u8>)
        ensures
            bytes@ == encode_utf8(self@),
    {
        rope_to_bytes(&self.contents)
    }

    /// Number of characters.
    pub fn char_count(&self) -> (n: usize)
        ensures
            n == self@.len(),
    {
        self.contents.len_chars()
    }

    /// Number of lines; at least 1.
    pub fn line_count(&self) -> (n: usize)
        ensures
            n == text::line_count(self@),
            n >= 1,
    {
        self.contents.len_lines()
    }

    /// Index of the last line.
    pub fn last_line_idx(&self) -> (l: usize)
        ensures
            l == text::line_count(self@) - 1,
    {
        self.line_count() - 1
    }

    /// Index of the last character; 0 in an empty document.
    pub fn last_char_idx(&self) -> (i: usize)
        ensures
            i == if self@.len() == 0 { 0 } else { self@.len() - 1 },
    {
        let n: usize = self.char_count();
        if n == 0 {
            0
        } else {
            n - 1
        }
    }

    /// Line that holds the character at `char_idx`; an index past the end
    /// counts as the end.
    pub fn char_to_line(&self, char_idx: usize) -> (l: usize)
        ensures
            l == text::line_of(self@, clamp_index(self@, char_idx as int)),
            l < text::line_count(self@),
    {
        let n: usize = self.char_count();
        let idx: usize = if char_idx < n { char_idx } else { n };
        proof {
            lemma_position_on_line(self@, idx as int);
        }
        self.contents.char_to_line(idx)
    }

    /// Index at which line `line_idx` starts; the length of the document for a
    /// line that does not exist.
    pub fn line_to_char(&self, line_idx: usize) -> (start: usize)
        ensures
            start == text::line_start(self@, line_idx as nat),
            start <= self@.len() <= usize::MAX,
    {
        let lines: usize = self.line_count();
        let n: usize = self.char_count();
        proof {
            lemma_line_start(self@, line_idx as nat);
        }
        if line_idx >= lines {
            n
        } else {
            let start: usize = self.contents.line_to_char(line_idx);
            proof {
                lemma_starts_line_unique(
                    self@,
                    line_idx as nat,
                    start as int,
                    text::line_start(self@, line_idx as nat),
                );
            }
            start
        }
    }

    /// Number of characters of line `line_idx`, without its terminating
    /// newline; 0 for a line that does not exist.
    pub fn line_len(&self, line_idx: usize) -> (len: usize)
        ensures
            len == text::line_len(self@, line_idx as nat),
    {
        let lines: usize = self.line_count();
        let start: usize = self.line_to_char(line_idx);
        if line_idx >= lines {
            0
        } else {
            let next: usize = self.line_to_char(line_idx + 1);
            proof {
                lemma_line_bounds(self@, line_idx as nat);
            }
            if line_idx + 1 < lines {
                next - 1 - start
            } else {
                next - start
            }
        }
    }

    /// The position of `char_idx`: its line, its column and its tag. An index
    /// past the end counts as the end.
    pub fn get_position(&self, char_idx: usize) -> (pos: DocumentPosition)
        ensures
            is_position(self@, char_idx as int, pos),
            char_idx <= self@.len() ==> pos.idx == char_idx,
            text::line_start(self@, pos.line as nat) + pos.col == pos.idx,
            pos.line < text::line_count(self@),
            pos.col <= text::line_len(self@, pos.line as nat),
    {
        let n: usize = self.char_count();
        let idx: usize = if char_idx < n { char_idx } else { n };
        let line: usize = self.char_to_line(idx);
        let start: usize = self.line_to_char(line);
        proof {
            lemma_position_on_line(self@, idx as int);
        }
        let col: usize = idx - start;
        let kind = if idx == 0 {
            PositionKind::DocStart
        } else if idx == n {
            PositionKind::DocEnd
        } else if col == 0 {
            PositionKind::LineStart
        } else if col == self.line_len(line) {
            PositionKind::LineEnd
        } else {
            PositionKind::LineCol
        };
        DocumentPosition { kind, line, col, idx }
    }

    /// The line that holds `char_idx`. An index past the end counts as the
    /// end.
    pub fn line(&self, char_idx: usize) -> (line: Line)
        ensures
            is_line(self@, text::line_of(self@, clamp_index(self@, char_idx as int)), line),
            line.line_no < text::line_count(self@),
            line.start_idx + line.len_chars <= self@.len(),
    {
        let line_no: usize = self.char_to_line(char_idx);
        proof {
            lemma_line_bounds(self@, line_no as nat);
        }
        Line {
            start_idx: self.line_to_char(line_no),
            line_no,
            len_chars: self.line_len(line_no),
        }
    }

    /// The position of the document's start.
    pub fn document_start(&self) -> (pos: DocumentPosition)
        ensures
            is_position(self@, 0, pos),
            pos.kind == PositionKind::DocStart,
            pos.idx == 0 && pos.line == 0 && pos.col == 0,
    {
        self.get_position(0)
    }

    /// The position of the document's end.
    pub fn document_end(&self) -> (pos: DocumentPosition)
        ensures
            is_position(self@, self@.len() as int, pos),
            pos.idx == self@.len(),
            pos.line == text::line_count(self@) - 1,
            pos.col == text::line_len(self@, pos.line as nat),
    {
        let pos = self.get_position(self.char_count());
        proof {
            lemma_line_bounds(self@, pos.line as nat);
            if pos.line + 1 < text::line_count(self@) {
                lemma_line_bounds(self@, (pos.line + 1) as nat);
            }
        }
        pos
    }

    /// The whole text.
    pub fn text(&self) -> (text: String)
        ensures
            text@ == self@,
    {
        let text = rope_substring(&self.contents, 0, self.char_count());
        assert(self@.subrange(0, self@.len() as int) == self@);
        text
    }

    /// The text of line `line_idx`, without its terminating newline; empty
    /// for a line that does not exist.
    pub fn line_text(&self, line_idx: usize) -> (text: String)
        ensures
            text@ == self@.subrange(
                text::line_start(self@, line_idx as nat),
                text::line_start(self@, line_idx as nat) + text::line_len(self@, line_idx as nat),
            ),
    {
        let start: usize = self.line_to_char(line_idx);
        let len: usize = self.line_len(line_idx);
        proof {
            lemma_line_start(self@, line_idx as nat);
            if line_idx < text::line_count(self@) {
                lemma_line_bounds(self@, line_idx as nat);
            }
        }
        rope_substring(&self.contents, start, start + len)
    }

    /// Start of the word that is last among `offsets`, the byte offsets of the
    /// words of the text before `char_idx`; 0 if there is none.
    pub fn token_start_before(&self, char_idx: usize, offsets: &Vec<usize>) -> (start: usize)
        ensures
            start == token_before(self@, char_idx as int, offsets@),
            start <= clamp_index(self@, char_idx as int),
    {
        let n: usize = self.char_count();
        let p: usize = if char_idx < n { char_idx } else { n };
        proof {
            lemma_token_bounds(self@, char_idx as int, offsets@);
        }
        match pick_last_offset(offsets) {
            None => 0,
            Some(o) => {
                let prefix_bytes: usize = self.contents.char_to_byte(p);
                proof {
                    lemma_utf8_offset_take(self@, p as int, p as int);
                    lemma_utf8_offset_monotonic(self@, p as int, n as int);
                }
                if o < prefix_bytes {
                    let found: usize = self.contents.byte_to_char(o);
                    proof {
                        lemma_char_at_byte_unique(self@, o as int, found as int);
                        lemma_char_at_byte_take(self@, p as int, o as int);
                    }
                    found
                } else {
                    p
                }
            },
        }
    }

    /// Start of the first word that begins after `char_idx`, among `offsets`,
    /// the byte offsets of the words of the text from `char_idx` on; the
    /// length of the document if there is none.
    pub fn token_start_after(&self, char_idx: usize, offsets: &Vec<usize>) -> (start: usize)
        ensures
            start == token_after(self@, char_idx as int, offsets@),
            clamp_index(self@, char_idx as int) <= start <= self@.len(),
    {
        let n: usize = self.char_count();
        if char_idx >= n {
            return n;
        }
        proof {
            lemma_token_bounds(self@, char_idx as int, offsets@);
        }
        match pick_first_later_offset(offsets) {
            None => n,
            Some(o) => {
                let base: usize = self.contents.char_to_byte(char_idx);
                let total: usize = self.contents.char_to_byte(n);
                proof {
                    lemma_utf8_offset_skip(self@, char_idx as int, n - char_idx);
                    lemma_utf8_offset_monotonic(self@.skip(char_idx as int), 0, n - char_idx);
                }
                if o < total - base {
                    let found: usize = self.contents.byte_to_char(base + o);
                    proof {
                        lemma_char_at_byte_unique(self@, base + o, found as int);
                        lemma_char_at_byte_skip(self@, char_idx as int, o as int);
                    }
                    found
                } else {
                    n
                }
            },
        }
    }

    /// Start of the word that is first among `offsets`, the byte offsets of
    /// the words of the whole text; the length of the document if there is
    /// none.
    pub fn token_start_first(&self, offsets: &Vec<usize>) -> (start: usize)
        ensures
            start == token_first(self@, offsets@),
            start <= self@.len(),
    {
        let n: usize = self.char_count();
        proof {
            lemma_token_bounds(self@, 0, offsets@);
        }
        match pick_first_offset(offsets) {
            None => n,
            Some(o) => {
                let total: usize = self.contents.char_to_byte(n);
                if o < total {
                    let found: usize = self.contents.byte_to_char(o);
                    proof {
                        lemma_char_at_byte_unique(self@, o as int, found as int);
                    }
                    found
                } else {
                    n
                }
            },
        }
    }

    /// Start of the nearest word that begins before `char_idx`, or 0 if there
    /// is none. The words are those of the text before `char_idx`; an index
    /// past the end counts as the end.
    pub fn prev_token_start(&self, char_idx: usize) -> (start: usize)
        ensures
            start == prev_token(self@, char_idx as int),
            start <= clamp_index(self@, char_idx as int),
            0 < clamp_index(self@, char_idx as int) ==> start < clamp_index(self@, char_idx as int),
    {
        if char_idx == 0 {
            return 0;
        }
        let n: usize = self.char_count();
        let p: usize = if char_idx < n { char_idx } else { n };
        let before = rope_substring(&self.contents, 0, p);
        let offsets = unicode_word_offsets(before.as_str());
        proof {
            if p > 0 {
                lemma_token_before_is_before(self@, char_idx as int, offsets@);
            }
        }
        self.token_start_before(char_idx, &offsets)
    }

    /// Start of the nearest word that begins after `char_idx`, or the length
    /// of the document if there is none. The words are those of the text from
    /// `char_idx` on.
    pub fn next_token_start(&self, char_idx: usize) -> (start: usize)
        ensures
            start == next_token(self@, char_idx as int),
            clamp_index(self@, char_idx as int) <= start <= self@.len(),
            char_idx < self@.len() ==> char_idx < start,
    {
        let n: usize = self.char_count();
        if char_idx >= n {
            return n;
        }
        let after = rope_substring(&self.contents, char_idx, n);
        let offsets = unicode_word_offsets(after.as_str());
        proof {
            lemma_token_after_is_after(self@, char_idx as int, offsets@);
        }
        self.token_start_after(char_idx, &offsets)
    }

    /// Start of the first word of the document, or the length of the document
    /// if it has no word.
    pub fn first_token_start(&self) -> (start: usize)
        ensures
            start == first_token(self@),
            start <= self@.len(),
    {
        let whole = self.text();
        let offsets = unicode_word_offsets(whole.as_str());
        self.token_start_first(&offsets)
    }

    /// Inserts `txt` in front of the character at `char_idx`. Fails, and
    /// leaves the document as it is, when `char_idx` is past the end.
    pub fn write(&mut self, txt: &str, char_idx: usize) -> (done: Result<(), DocumentError>)
        ensures
            done is Ok <==> char_idx <= old(self)@.len(),
            done is Ok ==> final(self)@ == old(self)@.take(char_idx as int) + txt@ + old(
                self,
            )@.skip(char_idx as int),
            done matches Err(e) ==> e == DocumentError::OutOfRange && final(self)@ == old(self)@,
    {
        if char_idx > self.char_count() {
            Err(DocumentError::OutOfRange)
        } else {
            self.contents.insert(char_idx, txt);
            Ok(())
        }
    }

    /// Removes the characters from `start` up to, not including, `end`.
    /// Fails, and leaves the document as it is, when the range is inverted or
    /// ends past the end of the document.
    pub fn delete(&mut self, start: usize, end: usize) -> (done: Result<(), DocumentError>)
        ensures
            done is Ok <==> start <= end <= old(self)@.len(),
            done is Ok ==> final(self)@ == old(self)@.take(start as int) + old(self)@.skip(
                end as int,
            ),
            done matches Err(e) ==> e == DocumentError::OutOfRange && final(self)@ == old(self)@,
    {
        if start > end || end > self.char_count() {
            Err(DocumentError::OutOfRange)
        } else {
            rope_remove(&mut self.contents, start, end);
            Ok(())
        }
    }
}

impl Default for DocumentBuffer {
    fn default() -> (doc: Self)
        ensures
            doc@ == Seq::<char>::empty(),
    {
        Self::new()
    }
}

} // verus!
