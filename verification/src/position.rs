//! Where a character index lies in a document: its line, its column, and one
//! of five tags.
//!
//! When several tags could apply, the start of the document wins, then its
//! end, then the start of a line, then the end of a line; a position that is
//! none of these is inside a line.

use crate::text::{column_of, line_count, line_len, line_of, line_start};
use crate::text::{lemma_line_of_column, lemma_position_on_line};
use vstd::prelude::*;

verus! {

/// The tag of a position.
#[derive(Clone, Copy, Debug, PartialEq, Eq, Structural)]
pub enum PositionKind {
    /// Index 0.
    DocStart,
    /// The index after the last character, in a document that is not empty.
    DocEnd,
    /// Column 0 of a line.
    LineStart,
    /// The column after the last character of a line.
    LineEnd,
    /// Any other column.
    LineCol,
}

/// A character index together with its line, column and tag.
#[derive(Clone, Copy, Debug, PartialEq, Eq, Structural)]
pub struct DocumentPosition {
    pub kind: PositionKind,
    pub line: usize,
    pub col: usize,
    pub idx: usize,
}

/// A line of a document: where it starts, its number, and its length without
/// the terminating newline.
#[derive(Clone, Copy, Debug, PartialEq, Eq, Structural)]
pub struct Line {
    pub start_idx: usize,
    pub line_no: usize,
    pub len_chars: usize,
}

/// The index `i` brought into `0..=len`.
pub open spec fn clamp_index(s: Seq<char>, i: int) -> int {
    if i < 0 {
        0
    } else if i > s.len() {
        s.len() as int
    } else {
        i
    }
}

/// Whether `kind` applies to position `i` of `s`, each tag stated with the
/// tags that take precedence over it ruled out.
pub open spec fn tag_applies(s: Seq<char>, i: int, kind: PositionKind) -> bool {
    let col = column_of(s, i);
    let len = line_len(s, line_of(s, i));
    match kind {
        PositionKind::DocStart => i == 0,
        PositionKind::DocEnd => i != 0 && i == s.len(),
        PositionKind::LineStart => i != 0 && i != s.len() && col == 0,
        PositionKind::LineEnd => i != 0 && i != s.len() && col != 0 && col == len,
        PositionKind::LineCol => i != 0 && i != s.len() && col != 0 && col != len,
    }
}

/// The tag of position `i` of `s`.
pub open spec fn position_kind(s: Seq<char>, i: int) -> PositionKind {
    if i == 0 {
        PositionKind::DocStart
    } else if i == s.len() {
        PositionKind::DocEnd
    } else if column_of(s, i) == 0 {
        PositionKind::LineStart
    } else if column_of(s, i) == line_len(s, line_of(s, i)) {
        PositionKind::LineEnd
    } else {
        PositionKind::LineCol
    }
}

/// `pos` is the position of index `i` in `s`, an index past the end taken as
/// the end.
pub open spec fn is_position(s: Seq<char>, i: int, pos: DocumentPosition) -> bool {
    let p = clamp_index(s, i);
    &&& pos.idx == p
    &&& pos.line == line_of(s, p)
    &&& pos.col == column_of(s, p)
    &&& pos.kind == position_kind(s, p)
}

/// `line` is line `l` of `s`.
pub open spec fn is_line(s: Seq<char>, l: nat, line: Line) -> bool {
    &&& line.line_no == l
    &&& line.start_idx == line_start(s, l)
    &&& line.len_chars == line_len(s, l)
}

/// Exactly one tag applies to each position: the one that `position_kind`
/// gives.
pub proof fn lemma_exactly_one_tag(s: Seq<char>, i: int, kind: PositionKind)
    requires
        0 <= i <= s.len(),
    ensures
        tag_applies(s, i, kind) <==> kind == position_kind(s, i),
{
}

/// A position gives its index back: the start of its line plus its column.
/// Its line exists and its column lies on that line.
pub proof fn lemma_position_rebuilds_index(s: Seq<char>, i: int, pos: DocumentPosition)
    requires
        0 <= i <= s.len(),
        is_position(s, i, pos),
    ensures
        pos.idx == i,
        line_start(s, pos.line as nat) + pos.col == i,
        pos.line < line_count(s),
        pos.col <= line_len(s, pos.line as nat),
{
    lemma_position_on_line(s, i);
}

/// A line and a column on it name one position, whose line and column they
/// are.
pub proof fn lemma_position_of_line_and_column(
    s: Seq<char>,
    l: nat,
    c: int,
    pos: DocumentPosition,
)
    requires
        l < line_count(s),
        0 <= c <= line_len(s, l),
        is_position(s, line_start(s, l) + c, pos),
    ensures
        pos.line == l,
        pos.col == c,
        pos.idx == line_start(s, l) + c,
{
    lemma_line_of_column(s, l, c);
}

/// On an empty line the start of the line wins over its end.
pub proof fn lemma_empty_line_is_line_start(s: Seq<char>, i: int)
    requires
        0 < i < s.len(),
        line_len(s, line_of(s, i)) == 0,
    ensures
        position_kind(s, i) == PositionKind::LineStart,
{
    lemma_position_on_line(s, i);
}

} // verus!
