//! Word starts, as Unicode word segmentation finds them.
//!
//! Which substrings of a text are words is decided by the
//! `unicode-segmentation` crate. The library names that decision
//! ([`word_byte_offsets`]) and reasons about what it does with the offsets.

use crate::encoding::starts_char;
use unicode_segmentation::UnicodeSegmentation;
use vstd::prelude::*;

verus! {

/// The byte offsets in `text`, taken as UTF-8, at which its words begin, in
/// the order of the text. A word is a piece between two Unicode word
/// boundaries that holds a letter or a digit.
pub uninterp spec fn word_byte_offsets(text: Seq<char>) -> Seq<usize>;

/// `UnicodeSegmentation::unicode_word_indices`, keeping of each word the
/// offset only. Every word is a non-empty piece of `text`, so each offset is
/// the first byte of a character of `text`.
#[verifier::external_body]
pub(crate) fn unicode_word_offsets(text: &str) -> (offsets: Vec<usize>)
    ensures
        offsets@ == word_byte_offsets(text@),
        forall|i: int| 0 <= i < offsets@.len() ==> starts_char(text@, #[trigger] offsets@[i] as int),
{
    text.unicode_word_indices().map(|(offset, _)| offset).collect()
}

/// The last of the offsets, if there is one.
pub open spec fn last_offset(offsets: Seq<usize>) -> Option<usize> {
    if offsets.len() == 0 {
        None
    } else {
        Some(offsets.last())
    }
}

/// The first of the offsets, if there is one.
pub open spec fn first_offset(offsets: Seq<usize>) -> Option<usize> {
    if offsets.len() == 0 {
        None
    } else {
        Some(offsets[0])
    }
}

/// The first of the offsets that is not zero, if there is one.
pub open spec fn first_later_offset(offsets: Seq<usize>) -> Option<usize>
    decreases offsets.len(),
{
    if offsets.len() == 0 {
        None
    } else if offsets[0] > 0 {
        Some(offsets[0])
    } else {
        first_later_offset(offsets.drop_first())
    }
}

/// What `first_later_offset` finds is one of the offsets, and not zero.
pub proof fn lemma_first_later_offset(offsets: Seq<usize>)
    ensures
        first_later_offset(offsets) matches Some(o) ==> o > 0 && offsets.contains(o),
    decreases offsets.len(),
{
    if offsets.len() > 0 {
        if offsets[0] > 0 {
            assert(offsets.contains(offsets[0]));
        } else {
            let rest = offsets.drop_first();
            lemma_first_later_offset(rest);
            if first_later_offset(rest) is Some {
                let found = first_later_offset(rest)->0;
                let j = choose|j: int| 0 <= j < rest.len() && rest[j] == found;
                assert(offsets[j + 1] == found);
            }
        }
    }
}

/// Picks the last offset.
pub fn pick_last_offset(offsets: &Vec<usize>) -> (picked: Option<usize>)
    ensures
        picked == last_offset(offsets@),
{
    let n: usize = offsets.len();
    if n == 0 {
        None
    } else {
        Some(offsets[n - 1])
    }
}

/// Picks the first offset.
pub fn pick_first_offset(offsets: &Vec<usize>) -> (picked: Option<usize>)
    ensures
        picked == first_offset(offsets@),
{
    if offsets.len() == 0 {
        None
    } else {
        Some(offsets[0])
    }
}

/// Picks the first offset that is not zero.
pub fn pick_first_later_offset(offsets: &Vec<usize>) -> (picked: Option<usize>)
    ensures
        picked == first_later_offset(offsets@),
{
    let n: usize = offsets.len();
    let mut i: usize = 0;
    assert(offsets@.skip(0) == offsets@);
    while i < n
        invariant
            n == offsets@.len(),
            i <= n,
            first_later_offset(offsets@) == first_later_offset(offsets@.skip(i as int)),
        decreases n - i,
    {
        if offsets[i] > 0 {
            return Some(offsets[i]);
        }
        assert(offsets@.skip(i as int).drop_first() == offsets@.skip(i + 1));
        i += 1;
    }
    None
}

} // verus!
