//! What this library takes on trust from the `ropey` rope.
//!
//! The rope is opaque to the verifier. Its contents are named by
//! [`rope_text`]; each operation used by the library is given a contract over
//! that name, as the rope's documentation describes it. The rope is built
//! without its optional line-break features, so a line ends at `\n` only.

use crate::encoding::{holds_byte, utf8_len, utf8_offset};
use crate::text::{line_count, newlines_before, starts_line};
use ropey::Rope;
use vstd::prelude::*;
use vstd::utf8::{decode_utf8, encode_utf8, valid_utf8};

verus! {

#[verifier::external_type_specification]
#[verifier::external_body]
pub struct ExRope(ropey::Rope);

#[verifier::external_type_specification]
#[verifier::external_body]
pub struct ExIoError(std::io::Error);

/// The characters that a rope holds, in order.
pub uninterp spec fn rope_text(rope: Rope) -> Seq<char>;

/// `Rope::new`: the empty rope.
pub assume_specification[ Rope::new ]() -> (rope: Rope)
    ensures
        rope_text(rope) == Seq::<char>::empty(),
;

/// `Rope::from_str`: a rope that holds the characters of `chars`.
pub assume_specification[ Rope::from_str ](chars: &str) -> (rope: Rope)
    ensures
        rope_text(rope) == chars@,
;

/// `Rope::len_chars`: the number of characters held.
pub assume_specification[ Rope::len_chars ](rope: &Rope) -> (n: usize)
    ensures
        n == rope_text(*rope).len(),
;

/// `Rope::len_lines`: one more than the number of line breaks held.
pub assume_specification[ Rope::len_lines ](rope: &Rope) -> (n: usize)
    ensures
        n == line_count(rope_text(*rope)),
;

/// `Rope::char_to_line`: the number of line breaks before the character
/// at `char_idx`. The rope panics past the end, which `requires` excludes.
pub assume_specification[ Rope::char_to_line ](rope: &Rope, char_idx: usize) -> (line: usize)
    requires
        char_idx <= rope_text(*rope).len(),
    ensures
        line == newlines_before(rope_text(*rope), char_idx as int),
;

/// `Rope::line_to_char`: the index of the first character of the line, where
/// lines begin at the start of the rope and right after each line break; one
/// past the last line gives the rope's length. The rope panics beyond that,
/// which `requires` excludes.
pub assume_specification[ Rope::line_to_char ](rope: &Rope, line_idx: usize) -> (start: usize)
    requires
        line_idx <= line_count(rope_text(*rope)),
    ensures
        line_idx < line_count(rope_text(*rope)) ==> starts_line(
            rope_text(*rope),
            line_idx as nat,
            start as int,
        ),
        line_idx == line_count(rope_text(*rope)) ==> start == rope_text(*rope).len(),
;

/// `Rope::char_to_byte`: the byte offset at which the character at
/// `char_idx` begins. The rope panics past the end, which `requires` excludes.
pub assume_specification[ Rope::char_to_byte ](rope: &Rope, char_idx: usize) -> (byte_idx: usize)
    requires
        char_idx <= rope_text(*rope).len(),
    ensures
        byte_idx == utf8_offset(rope_text(*rope), char_idx as int),
;

/// `Rope::byte_to_char`: the index of the character that the byte at
/// `byte_idx` belongs to; the byte length of the rope gives its length in
/// characters. The rope panics beyond that, which `requires` excludes.
pub assume_specification[ Rope::byte_to_char ](rope: &Rope, byte_idx: usize) -> (char_idx: usize)
    requires
        byte_idx <= utf8_len(rope_text(*rope)),
    ensures
        holds_byte(rope_text(*rope), char_idx as int, byte_idx as int),
;

/// `Rope::insert`: puts `chars` in front of the character at `char_idx`. The
/// rope panics when `char_idx` is past the end, which `requires` excludes.
pub assume_specification[ Rope::insert ](rope: &mut Rope, char_idx: usize, chars: &str)
    requires
        char_idx <= rope_text(*old(rope)).len(),
    ensures
        rope_text(*final(rope)) == rope_text(*old(rope)).take(char_idx as int) + chars@
            + rope_text(*old(rope)).skip(char_idx as int),
;

/// `Rope::remove` on the range `start..end`: takes those characters out. The
/// rope panics on an inverted range or one that ends past the rope's end,
/// which `requires` excludes.
#[verifier::external_body]
pub(crate) fn rope_remove(rope: &mut Rope, start: usize, end: usize)
    requires
        start <= end <= rope_text(*old(rope)).len(),
    ensures
        rope_text(*final(rope)) == rope_text(*old(rope)).take(start as int) + rope_text(
            *old(rope),
        ).skip(end as int),
{
    rope.remove(start..end)
}

/// `Rope::slice` on the range `start..end`, turned into a `String`: the
/// characters of that range. The rope panics on an inverted range or one that
/// ends past the rope's end, which `requires` excludes.
#[verifier::external_body]
pub(crate) fn rope_substring(rope: &Rope, start: usize, end: usize) -> (text: String)
    requires
        start <= end <= rope_text(*rope).len(),
    ensures
        text@ == rope_text(*rope).subrange(start as int, end as int),
{
    String::from(rope.slice(start..end))
}

/// `Rope::from_reader` on a slice of bytes: succeeds exactly on valid UTF-8,
/// with the decoded characters. A slice cannot fail to be read, so the only
/// error is the one the rope raises on invalid data.
#[verifier::external_body]
pub(crate) fn rope_from_bytes(bytes: &[u8]) -> (loaded: Result<Rope, std::io::Error>)
    ensures
        loaded is Ok <==> valid_utf8(bytes@),
        loaded matches Ok(rope) ==> rope_text(rope) == decode_utf8(bytes@),
{
    Rope::from_reader(bytes)
}

/// `Rope::write_to` into a fresh vector: the UTF-8 form of the characters
/// held. Writing into a vector cannot fail.
#[verifier::external_body]
pub(crate) fn rope_to_bytes(rope: &Rope) -> (bytes: Vec<u8>)
    ensures
        bytes@ == encode_utf8(rope_text(*rope)),
{
    let mut bytes = Vec::new();
    let _ = rope.write_to(&mut bytes);
    bytes
}

} // verus!
