//! Byte offsets of characters in the UTF-8 form of a text.
//!
//! Word segmentation reports where words begin in bytes; the document
//! addresses text in scalar values. This module is the bridge between the two.

use vstd::prelude::*;

verus! {

/// Number of bytes that `c` takes in UTF-8.
pub open spec fn char_utf8_len(c: char) -> int {
    let u = c as u32;
    if u < 0x80 {
        1
    } else if u < 0x800 {
        2
    } else if u < 0x1_0000 {
        3
    } else {
        4
    }
}

/// Byte offset at which character `k` of `s` begins, that is the number of
/// bytes of the first `k` characters. Indices past the end count as the end.
pub open spec fn utf8_offset(s: Seq<char>, k: int) -> int
    decreases k,
{
    if k <= 0 {
        0
    } else if k > s.len() {
        utf8_offset(s, s.len() as int)
    } else {
        utf8_offset(s, k - 1) + char_utf8_len(s[k - 1])
    }
}

/// Number of bytes of `s` in UTF-8.
pub open spec fn utf8_len(s: Seq<char>) -> int {
    utf8_offset(s, s.len() as int)
}

/// Byte `b` belongs to character `k` of `s`: it is at or after the character's
/// first byte and before the next character's. The end of the text holds
/// every byte from the text's length on.
pub open spec fn holds_byte(s: Seq<char>, k: int, b: int) -> bool {
    &&& 0 <= k <= s.len()
    &&& utf8_offset(s, k) <= b
    &&& k < s.len() ==> b < utf8_offset(s, k + 1)
}

/// Byte `b` is the first byte of a character of `s`.
pub open spec fn starts_char(s: Seq<char>, b: int) -> bool {
    exists|k: int| 0 <= k < s.len() && utf8_offset(s, k) == b
}

/// The greatest index in `0..=k` whose character begins at or before byte `b`.
pub open spec fn char_at_byte_within(s: Seq<char>, b: int, k: int) -> int
    decreases k,
{
    if k <= 0 {
        0
    } else if utf8_offset(s, k) <= b {
        k
    } else {
        char_at_byte_within(s, b, k - 1)
    }
}

/// Index of the character of `s` that byte `b` belongs to.
pub open spec fn char_at_byte(s: Seq<char>, b: int) -> int {
    char_at_byte_within(s, b, s.len() as int)
}

/// Byte offsets grow strictly with the character index.
pub proof fn lemma_utf8_offset_monotonic(s: Seq<char>, i: int, j: int)
    requires
        0 <= i <= j <= s.len(),
    ensures
        utf8_offset(s, j) - utf8_offset(s, i) >= j - i,
    decreases j - i,
{
    if i < j {
        lemma_utf8_offset_monotonic(s, i, j - 1);
    }
}

/// `char_at_byte_within` finds the character that holds the byte, among the
/// first `k` characters.
pub proof fn lemma_char_at_byte_within(s: Seq<char>, b: int, k: int)
    requires
        0 <= b,
        0 <= k <= s.len(),
    ensures
        0 <= char_at_byte_within(s, b, k) <= k,
        utf8_offset(s, char_at_byte_within(s, b, k)) <= b,
        char_at_byte_within(s, b, k) < k ==> b < utf8_offset(
            s,
            char_at_byte_within(s, b, k) + 1,
        ),
    decreases k,
{
    if k > 0 && utf8_offset(s, k) > b {
        lemma_char_at_byte_within(s, b, k - 1);
    }
}

/// `char_at_byte` names a character that holds the byte; a byte within the
/// text belongs to a character of the text.
pub proof fn lemma_char_at_byte(s: Seq<char>, b: int)
    requires
        0 <= b,
    ensures
        holds_byte(s, char_at_byte(s, b), b),
        b < utf8_len(s) ==> char_at_byte(s, b) < s.len(),
{
    lemma_char_at_byte_within(s, b, s.len() as int);
}

/// Only one character holds a given byte: the one that `char_at_byte` names.
pub proof fn lemma_char_at_byte_unique(s: Seq<char>, b: int, k: int)
    requires
        0 <= b,
        holds_byte(s, k, b),
    ensures
        k == char_at_byte(s, b),
{
    lemma_char_at_byte(s, b);
    let c = char_at_byte(s, b);
    if k < c {
        lemma_utf8_offset_monotonic(s, k + 1, c);
    } else if c < k {
        lemma_utf8_offset_monotonic(s, c + 1, k);
    }
}

/// The first byte of a character belongs to that character, which is the
/// first one only if the byte is byte 0.
pub proof fn lemma_char_at_first_byte(s: Seq<char>, b: int)
    requires
        starts_char(s, b),
    ensures
        0 <= b < utf8_len(s),
        0 <= char_at_byte(s, b) < s.len(),
        utf8_offset(s, char_at_byte(s, b)) == b,
        b > 0 ==> char_at_byte(s, b) > 0,
{
    let k = choose|k: int| 0 <= k < s.len() && utf8_offset(s, k) == b;
    lemma_utf8_offset_monotonic(s, 0, k);
    lemma_utf8_offset_monotonic(s, k, k + 1);
    lemma_utf8_offset_monotonic(s, k + 1, s.len() as int);
    lemma_char_at_byte_unique(s, b, k);
    lemma_char_at_byte(s, b);
}

/// Offsets within a prefix are offsets within the whole text.
pub proof fn lemma_utf8_offset_take(s: Seq<char>, p: int, k: int)
    requires
        0 <= k <= p <= s.len(),
    ensures
        utf8_offset(s.take(p), k) == utf8_offset(s, k),
    decreases k,
{
    if k > 0 {
        lemma_utf8_offset_take(s, p, k - 1);
    }
}

/// Offsets within a suffix are offsets within the whole text, less the bytes
/// of what was cut off.
pub proof fn lemma_utf8_offset_skip(s: Seq<char>, p: int, k: int)
    requires
        0 <= p <= s.len(),
        0 <= k <= s.len() - p,
    ensures
        utf8_offset(s.skip(p), k) + utf8_offset(s, p) == utf8_offset(s, p + k),
    decreases k,
{
    if k > 0 {
        lemma_utf8_offset_skip(s, p, k - 1);
    }
}

/// A byte of a prefix belongs to the same character in the whole text.
pub proof fn lemma_char_at_byte_take(s: Seq<char>, p: int, b: int)
    requires
        0 <= p <= s.len(),
        0 <= b < utf8_len(s.take(p)),
    ensures
        char_at_byte(s, b) == char_at_byte(s.take(p), b),
        char_at_byte(s, b) < p,
{
    let t = s.take(p);
    let k = char_at_byte(t, b);
    lemma_char_at_byte(t, b);
    lemma_utf8_offset_take(s, p, k);
    lemma_utf8_offset_take(s, p, k + 1);
    lemma_char_at_byte_unique(s, b, k);
}

/// A byte of a suffix belongs to the character of the whole text that lies
/// as far behind the cut.
pub proof fn lemma_char_at_byte_skip(s: Seq<char>, p: int, b: int)
    requires
        0 <= p <= s.len(),
        0 <= b < utf8_len(s.skip(p)),
    ensures
        char_at_byte(s, utf8_offset(s, p) + b) == p + char_at_byte(s.skip(p), b),
        p + char_at_byte(s.skip(p), b) < s.len(),
        utf8_offset(s, p) + b < utf8_len(s),
{
    let t = s.skip(p);
    let k = char_at_byte(t, b);
    lemma_char_at_byte(t, b);
    lemma_utf8_offset_skip(s, p, k);
    lemma_utf8_offset_skip(s, p, k + 1);
    lemma_utf8_offset_skip(s, p, t.len() as int);
    lemma_utf8_offset_monotonic(s, 0, p);
    lemma_char_at_byte_unique(s, utf8_offset(s, p) + b, p + k);
}

} // verus!
